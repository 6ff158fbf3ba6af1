//! Decimal renderings of quotients, exactly as binary floating point prints
//! them.
//!
//! A quotient is first rounded to the nearest value with a fixed number of
//! significant bits (ties to even), and that binary value is then rounded to
//! a fixed number of decimals (ties to even again). Both steps are integer
//! arithmetic here, so the printed text is a function of the integers that
//! went in and can be reasoned about.
use vstd::prelude::*;

use crate::text::{dec, dec_pad, push_dec, push_dec_pad};

verus! {

/// 2^52: the least significand of a 53-bit binary value.
pub const LEAST53: u64 = 4_503_599_627_370_496;

/// 2^23: the least significand of a 24-bit binary value.
pub const LEAST24: u64 = 8_388_608;

/// The non-negative binary value `m / w`.
#[derive(Debug, Clone, Copy)]
pub struct Bin {
    pub m: u128,
    pub w: u128,
}

/// `a / b` to the nearest integer, ties to even.
pub open spec fn nearest_int(a: nat, b: nat) -> nat {
    let q = a / b;
    let r = a % b;
    if 2 * r < b || (2 * r == b && q % 2 == 0) {
        q
    } else {
        q + 1
    }
}

/// The least power-of-two multiple of `w` by which `x` has to grow to reach
/// `lim`.
pub open spec fn grow(x: nat, lim: nat, w: nat) -> nat
    decreases (if x >= lim { 0 } else { lim - x }),
    when x > 0
{
    if x >= lim {
        w
    } else {
        grow(2 * x, lim, 2 * w)
    }
}

/// The least power-of-two multiple of `w`, scaling `lim` up to it, that keeps
/// `x` below the limit.
pub open spec fn shrink(x: nat, lim: nat, w: nat) -> nat
    decreases (if x < lim { 0 } else { x + 1 - lim }),
    when lim > 0
{
    if x < lim {
        w
    } else {
        shrink(x, 2 * lim, 2 * w)
    }
}

/// Numerator and denominator of `num / den` rounded to the significand size
/// whose least significand is `least`; for quotients below `2 * least`.
pub open spec fn rounded(num: nat, den: nat, least: nat) -> (nat, nat) {
    if num == 0 {
        (0, 1)
    } else {
        let w = grow(num, den * least, 1);
        (nearest_int(num * w, den), w)
    }
}

/// An integer rounded to the significand size whose least significand is
/// `least`.
pub open spec fn rounded_int(n: nat, least: nat) -> nat {
    let w = shrink(n, 2 * least, 1);
    nearest_int(n, w) * w
}

/// A whole number plus the binary value `f`, rounded to the significand size
/// whose least significand is `least`.
pub open spec fn rounded_sum(whole: nat, f: (nat, nat), least: nat) -> (nat, nat) {
    let num = whole * f.1 + f.0;
    let k = shrink(num, 2 * least, 1);
    if k <= f.1 {
        (nearest_int(num, k), f.1 / k)
    } else {
        (nearest_int(num, k) * (k / f.1), 1)
    }
}

/// The binary value `b` in units of `1 / unit`, rounded to an integer.
pub open spec fn in_units(b: (nat, nat), unit: nat) -> nat {
    nearest_int(b.0 * unit, b.1)
}

/// Whole seconds and nanoseconds as one single-precision number of seconds,
/// each step rounded.
pub open spec fn single_seconds(secs: nat, nanos: nat) -> (nat, nat) {
    rounded_sum(
        rounded_int(secs, LEAST24 as nat),
        rounded(rounded_int(nanos, LEAST24 as nat), 1_000_000_000, LEAST24 as nat),
        LEAST24 as nat,
    )
}

/// Text of `v` tenths.
pub open spec fn tenths_text(v: nat) -> Seq<char> {
    dec(v / 10) + "."@ + dec(v % 10)
}

/// Text of `v` hundredths.
pub open spec fn hundredths_text(v: nat) -> Seq<char> {
    dec(v / 100) + "."@ + dec_pad(v % 100, 2)
}

fn nearest_int_exec(a: u128, b: u128) -> (r: u128)
    requires
        0 < b < 0x4000_0000_0000_0000_0000_0000_0000_0000,
        a < 0x8000_0000_0000_0000_0000_0000_0000_0000,
    ensures
        r == nearest_int(a as nat, b as nat),
{
    let q: u128 = a / b;
    let rem: u128 = a % b;
    proof {
        assert(q <= a) by (nonlinear_arith)
            requires
                q == a / b,
                b > 0,
        ;
    }
    if 2 * rem < b || (2 * rem == b && q % 2 == 0) {
        q
    } else {
        q + 1
    }
}

/// `num / den` rounded to a binary significand.
pub fn round_quotient(num: u128, den: u128, least: u64) -> (r: Bin)
    requires
        0 < den,
        0 < least,
        den * least < 0x1000_0000_0000_0000_0000_0000_0000_0000,
        num < 2 * den * least,
    ensures
        (r.m as nat, r.w as nat) == rounded(num as nat, den as nat, least as nat),
        r.w >= 1,
        num > 0 ==> r.w <= 2 * den * least,
        num <= den ==> r.m <= r.w,
        r.m <= 2 * least,
{
    if num == 0 {
        return Bin { m: 0, w: 1 };
    }
    proof {
        assert(den <= den * least) by (nonlinear_arith)
            requires
                least >= 1,
                den >= 1,
        ;
        assert(2 * den * least == 2 * (den * least)) by (nonlinear_arith);
    }
    let lim: u128 = den * (least as u128);
    let mut x: u128 = num;
    let mut w: u128 = 1;
    while x < lim
        invariant
            lim == den * least,
            lim < 0x1000_0000_0000_0000_0000_0000_0000_0000,
            num > 0,
            x == num * w,
            x < 2 * lim,
            1 <= w <= x,
            grow(num as nat, lim as nat, 1) == grow(x as nat, lim as nat, w as nat),
        decreases (if x >= lim { 0 } else { lim - x }),
    {
        proof {
            assert(2 * x == num * (2 * w)) by (nonlinear_arith)
                requires
                    x == num * w,
            ;
        }
        x = 2 * x;
        w = 2 * w;
    }
    let m: u128 = nearest_int_exec(x, den);
    proof {
        assert(m <= 2 * least) by {
            assert(x < 2 * (den * least));
            assert(x / den <= 2 * least - 1) by (nonlinear_arith)
                requires
                    x < 2 * (den * least),
                    den > 0,
            ;
        }
        if num <= den {
            let q = x / den;
            let rem = x % den;
            assert(x == den * q + rem) by (nonlinear_arith)
                requires
                    q == x / den,
                    rem == x % den,
                    den > 0,
            ;
            assert(num * w <= den * w) by (nonlinear_arith)
                requires
                    num <= den,
                    w >= 0,
            ;
            assert(q <= w && (q == w ==> rem == 0)) by (nonlinear_arith)
                requires
                    x == den * q + rem,
                    x <= den * w,
                    rem >= 0,
                    den > 0,
            ;
        }
    }
    Bin { m, w }
}

/// An integer rounded to a binary significand.
pub fn round_integer(n: u64, least: u64) -> (r: u128)
    requires
        0 < least <= LEAST53,
    ensures
        r == rounded_int(n as nat, least as nat),
        r <= 2 * n,
{
    let mut lim: u128 = 2 * (least as u128);
    let mut w: u128 = 1;
    while n as u128 >= lim
        invariant
            0 < least <= LEAST53,
            lim == 2 * least * w,
            lim > 0,
            1 <= w,
            w == 1 || w <= n,
            shrink(n as nat, 2 * least as nat, 1) == shrink(n as nat, lim as nat, w as nat),
        decreases (if n < lim { 0 } else { n + 1 - lim }),
    {
        proof {
            assert(2 * (2 * least * w) == 2 * least * (2 * w)) by (nonlinear_arith);
            assert(w <= 2 * least * w) by (nonlinear_arith)
                requires
                    least >= 1,
                    w >= 1,
            ;
            assert(2 * w <= 2 * least * w) by (nonlinear_arith)
                requires
                    least >= 1,
                    w >= 1,
            ;
        }
        lim = 2 * lim;
        w = 2 * w;
    }
    let m: u128 = nearest_int_exec(n as u128, w);
    proof {
        assert(m * w <= 2 * n && m * w <= u128::MAX) by {
            let q = n as nat / w as nat;
            let r = n as nat % w as nat;
            assert(n == q * w + r) by (nonlinear_arith)
                requires
                    q == n as nat / w as nat,
                    r == n as nat % w as nat,
                    w > 0,
            ;
            if m == q {
                assert(m * w <= n);
            } else {
                assert(m == q + 1);
                assert((q + 1) * w == q * w + w) by (nonlinear_arith);
                assert(2 * r >= w);
            }
        }
    }
    m * w
}

/// A whole number plus a binary value, rounded to a binary significand.
pub fn round_sum(whole: u64, f: Bin, least: u64) -> (r: Bin)
    requires
        0 < least <= LEAST53,
        f.w >= 1,
        whole < 0x10_0000_0000,
        f.w <= 0x10_0000_0000_0000_0000_0000,
        f.m <= f.w,
    ensures
        (r.m as nat, r.w as nat) == rounded_sum(
            whole as nat,
            (f.m as nat, f.w as nat),
            least as nat,
        ),
        1 <= r.w <= f.w,
        r.m <= 0x20_0000_0000_0000,
{
    proof {
        assert(whole * f.w <= 0x10_0000_0000 * 0x10_0000_0000_0000_0000_0000) by (nonlinear_arith)
            requires
                whole < 0x10_0000_0000,
                f.w <= 0x10_0000_0000_0000_0000_0000,
        ;
    }
    let num: u128 = whole as u128 * f.w + f.m;
    let mut lim: u128 = 2 * (least as u128);
    let mut k: u128 = 1;
    while num >= lim
        invariant
            0 < least <= LEAST53,
            lim == 2 * least * k,
            lim > 0,
            1 <= k,
            k == 1 || k <= num,
            num < 0x200_0000_0000_0000_0000_0000_0000_0000,
            shrink(num as nat, 2 * least as nat, 1) == shrink(num as nat, lim as nat, k as nat),
        decreases (if num < lim { 0 } else { num + 1 - lim }),
    {
        proof {
            assert(2 * (2 * least * k) == 2 * least * (2 * k)) by (nonlinear_arith);
            assert(2 * k <= 2 * least * k) by (nonlinear_arith)
                requires
                    least >= 1,
                    k >= 1,
            ;
        }
        lim = 2 * lim;
        k = 2 * k;
    }
    let m: u128 = nearest_int_exec(num, k);
    proof {
        assert(num / k <= 2 * least - 1) by (nonlinear_arith)
            requires
                num < 2 * least * k,
                k > 0,
        ;
    }
    if k <= f.w {
        proof {
            assert(f.w / k >= 1) by (nonlinear_arith)
                requires
                    k <= f.w,
                    k > 0,
            ;
            assert(f.w / k <= f.w) by (nonlinear_arith)
                requires
                    k > 0,
            ;
        }
        Bin { m, w: f.w / k }
    } else {
        proof {
            let q = num / k;
            let s = k / f.w;
            assert(q * s <= num / f.w) by {
                assert(q * k <= num) by (nonlinear_arith)
                    requires
                        q == num / k,
                        k > 0,
                ;
                assert(s * f.w <= k) by (nonlinear_arith)
                    requires
                        s == k / f.w,
                        f.w > 0,
                ;
                assert((q * s) * f.w <= q * k) by (nonlinear_arith)
                    requires
                        s * f.w <= k,
                        q >= 0,
                ;
                assert(q * s <= num / f.w) by (nonlinear_arith)
                    requires
                        (q * s) * f.w <= num,
                        f.w > 0,
                ;
            }
            assert(num / f.w <= whole + 1) by (nonlinear_arith)
                requires
                    num == whole * f.w + f.m,
                    f.m <= f.w,
                    f.w > 0,
            ;
            assert(s <= num / f.w) by (nonlinear_arith)
                requires
                    k <= num,
                    s == k / f.w,
                    f.w > 0,
            ;
            assert(m * s <= q * s + s) by (nonlinear_arith)
                requires
                    m <= q + 1,
                    s >= 0,
            ;
        }
        Bin { m: m * (k / f.w), w: 1 }
    }
}

proof fn lemma_rounded_nanos(n: nat)
    requires
        n < 1_000_000_000,
    ensures
        rounded_int(n, LEAST24 as nat) <= 1_000_000_000,
{
    let lim = 2 * LEAST24 as nat;
    let w = shrink(n, lim, 1);
    reveal_with_fuel(shrink, 8);
    assert(w == 1 || w == 2 || w == 4 || w == 8 || w == 16 || w == 32 || w == 64);
    let top = 1_000_000_000nat / w;
    assert(top * w == 1_000_000_000) by (nonlinear_arith)
        requires
            top == 1_000_000_000nat / w,
            w == 1 || w == 2 || w == 4 || w == 8 || w == 16 || w == 32 || w == 64,
    ;
    assert(n / w < top) by (nonlinear_arith)
        requires
            n < top * w,
            w > 0,
    ;
    assert(nearest_int(n, w) <= top);
    assert(nearest_int(n, w) * w <= top * w) by (nonlinear_arith)
        requires
            nearest_int(n, w) <= top,
            w > 0,
    ;
}

/// Seconds and nanoseconds as one single-precision number of seconds, to the
/// nearest whole number.
pub fn whole_single_seconds(secs: u64, nanos: u64) -> (r: u64)
    requires
        secs < 0x5_0000_0000,
        nanos < 1_000_000_000,
    ensures
        r == in_units(single_seconds(secs as nat, nanos as nat), 1),
{
    let whole: u128 = round_integer(secs, LEAST24);
    let fraction: u128 = round_integer(nanos, LEAST24);
    proof {
        lemma_rounded_nanos(nanos as nat);
    }
    let f = round_quotient(fraction, 1_000_000_000, LEAST24);
    let s = round_sum(whole as u64, f, LEAST24);
    let v: u128 = to_units(s, 1);
    v as u64
}

/// A binary value in units of `1 / unit`, rounded to an integer.
pub fn to_units(b: Bin, unit: u64) -> (r: u128)
    requires
        0 < b.w < 0x4000_0000_0000_0000_0000_0000_0000_0000,
        b.m <= 0x20_0000_0000_0000,
        unit <= 100,
    ensures
        r == in_units((b.m as nat, b.w as nat), unit as nat),
        r <= 0x80_0000_0000_0000_00,
{
    proof {
        assert(b.m * unit <= 0x20_0000_0000_0000 * 100) by (nonlinear_arith)
            requires
                b.m <= 0x20_0000_0000_0000,
                unit <= 100,
        ;
        assert((b.m * unit) / (b.w as int) <= b.m * unit) by (nonlinear_arith)
            requires
                b.w > 0,
                b.m * unit >= 0,
        ;
    }
    nearest_int_exec(b.m * (unit as u128), b.w)
}

/// Append the text of `v` tenths.
pub fn push_tenths(out: &mut String, v: u64)
    ensures
        final(out)@ == old(out)@ + tenths_text(v as nat),
{
    let ghost start = out@;
    push_dec(out, v / 10);
    out.append(".");
    push_dec(out, v % 10);
    proof {
        assert(out@ =~= start + tenths_text(v as nat));
    }
}

/// Append the text of `v` hundredths.
pub fn push_hundredths(out: &mut String, v: u64)
    ensures
        final(out)@ == old(out)@ + hundredths_text(v as nat),
{
    let ghost start = out@;
    push_dec(out, v / 100);
    out.append(".");
    push_dec_pad(out, v % 100, 2);
    proof {
        assert(out@ =~= start + hundredths_text(v as nat));
    }
}

} // verus!
