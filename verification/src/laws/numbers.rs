//! Laws of the numbers that are shown: how far a shown one can be from the
//! one it stands for.
use vstd::prelude::*;

use crate::decimal::{
    grow, in_units, nearest_int, push_hundredths, push_tenths, rounded, rounded_int, rounded_sum,
    shrink, tenths_text, LEAST24, LEAST53,
};
use crate::laws::words::{law_decimal_reads_back, lemma_pad_reads, numeral, reads};
use crate::span::Span;
use crate::text::{dec, dec_pad};
use crate::ui::plot_panel::{fmt_total, rx_label};
use crate::ui::status_strip::push_seconds;
use crate::workers::ntrip::{fmt_bytes, fmt_duration};

verus! {

/// The whole number nearest to a quotient is within half of it.
proof fn lemma_nearest(a: nat, b: nat)
    requires
        b > 0,
    ensures
        2 * (nearest_int(a, b) * b) <= 2 * a + b,
        2 * a <= 2 * (nearest_int(a, b) * b) + b,
{
    let q = a / b;
    let r = a % b;
    vstd::arithmetic::div_mod::lemma_fundamental_div_mod(a as int, b as int);
    assert(0 <= r < b) by (nonlinear_arith)
        requires
            b > 0,
            r == a % b,
    ;
    assert(b * q == q * b) by (nonlinear_arith);
    assert((q + 1) * b == q * b + b) by (nonlinear_arith);
}

proof fn lemma_grow(x: nat, lim: nat, w: nat)
    requires
        x > 0,
        w > 0,
    ensures
        grow(x, lim, w) >= w,
        grow(x, lim, w) * x >= lim * w,
    decreases (if x >= lim {
        0
    } else {
        lim - x
    }),
{
    let r = grow(x, lim, w);
    if x < lim {
        lemma_grow(2 * x, lim, 2 * w);
        assert(r * (2 * x) == 2 * (r * x)) by (nonlinear_arith);
        assert(lim * (2 * w) == 2 * (lim * w)) by (nonlinear_arith);
    } else {
        assert(r * x >= lim * w) by (nonlinear_arith)
            requires
                r == w,
                x >= lim,
        ;
    }
}

/// A quotient that is rounded in binary and then told in parts of `unit` is
/// off by no more than half a part.
proof fn lemma_told_quotient(n: nat, den: nat, unit: nat, part: nat, v: nat)
    requires
        n > 0,
        den == unit * part,
        unit > 0 && part > 0,
        part % 2 == 0,
        n < 0x20_0000_0000_0000,
        60 <= den <= 1_000_000,
        v == in_units(rounded(n, den, LEAST53 as nat), unit),
        grow(n, den * LEAST53 as nat, 1) > den,
    ensures
        part * v <= n + part / 2,
        n <= part * v + part / 2,
{
    let w = grow(n, den * LEAST53 as nat, 1);
    let m = nearest_int(n * w, den);
    lemma_nearest(n * w, den);
    lemma_nearest(m * unit, w);
    let h = part / 2;
    assert(2 * h == part);
    // part * (v * w) against part * (m * unit) == m * den, and that against n * w.
    assert(part * (m * unit) == m * den) by (nonlinear_arith)
        requires
            den == unit * part,
    ;
    assert(2 * (part * (v * w)) <= 2 * (part * (m * unit)) + part * w) by (nonlinear_arith)
        requires
            2 * (v * w) <= 2 * (m * unit) + w,
    ;
    assert(2 * (part * (m * unit)) <= 2 * (part * (v * w)) + part * w) by (nonlinear_arith)
        requires
            2 * (m * unit) <= 2 * (v * w) + w,
    ;
    assert(part * (v * w) == (part * v) * w) by (nonlinear_arith);
    assert(2 * ((part * v) * w) <= 2 * (n * w) + part * w + den);
    assert(2 * (n * w) <= 2 * ((part * v) * w) + part * w + den);
    assert(2 * (part * v) <= 2 * n + part + 1) by (nonlinear_arith)
        requires
            2 * ((part * v) * w) <= 2 * (n * w) + part * w + den,
            w > den,
    ;
    assert(2 * n <= 2 * (part * v) + part + 1) by (nonlinear_arith)
        requires
            2 * (n * w) <= 2 * ((part * v) * w) + part * w + den,
            w > den,
    ;
}

/// A whole number is its own nearest.
proof fn lemma_whole(n: nat)
    ensures
        nearest_int(n, 1) == n,
{
}

/// A number that fits is not rounded, alone or as a sum without a fraction.
proof fn lemma_fits(n: nat, least: nat)
    requires
        n < 2 * least,
    ensures
        rounded_int(n, least) == n,
        rounded_sum(n, (0nat, 1nat), least) == (n, 1nat),
{
    lemma_whole(n);
    let k = shrink(n, 2 * least, 1);
    assert(k == 1);
    let q = nearest_int(n, 1);
    assert(q == n);
    assert(q * k == n) by (nonlinear_arith)
        requires
            q == n,
            k == 1,
    ;
    let num = n * 1nat + 0nat;
    assert(num == n) by (nonlinear_arith)
        requires
            num == n * 1nat + 0nat,
    ;
    assert(1nat / 1nat == 1nat);
}

/// Tenths are told as what stands before and behind a point.
pub proof fn law_tenths_have_a_point(out: &mut String, v: u64)
    requires
        call_ensures(push_tenths, (out, v), ()),
    ensures
        ({
            let new = final(out)@.skip(old(out)@.len() as int);
            let n = new.len() as int;
            &&& final(out)@ == old(out)@ + new
            &&& n >= 3 && new[n - 2] == '.'
            &&& numeral(new.take(n - 2)) && numeral(new.skip(n - 1))
            &&& 10 * reads(new.take(n - 2)) + reads(new.skip(n - 1)) == v
        }),
{
    let (a, b) = (dec((v / 10) as nat), dec((v % 10) as nat));
    law_decimal_reads_back((v / 10) as nat);
    law_decimal_reads_back((v % 10) as nat);
    reveal_strlit(".");
    assert(b.len() == 1);
    let new = final(out)@.skip(old(out)@.len() as int);
    let n = new.len() as int;
    assert(new =~= a + "."@ + b);
    assert(final(out)@ =~= old(out)@ + new);
    assert(new.take(n - 2) =~= a);
    assert(new.skip(n - 1) =~= b);
}

/// Hundredths are told with two digits behind the point.
pub proof fn law_hundredths_have_a_point(out: &mut String, v: u64)
    requires
        call_ensures(push_hundredths, (out, v), ()),
    ensures
        ({
            let new = final(out)@.skip(old(out)@.len() as int);
            let n = new.len() as int;
            &&& final(out)@ == old(out)@ + new
            &&& n >= 4 && new[n - 3] == '.'
            &&& numeral(new.take(n - 3)) && numeral(new.skip(n - 2))
            &&& 100 * reads(new.take(n - 3)) + reads(new.skip(n - 2)) == v
        }),
{
    let (a, b) = (dec((v / 100) as nat), dec_pad((v % 100) as nat, 2));
    law_decimal_reads_back((v / 100) as nat);
    lemma_pad_reads((v % 100) as nat, 2);
    reveal_strlit(".");
    reveal_with_fuel(dec, 3);
    assert(b.len() == 2);
    let new = final(out)@.skip(old(out)@.len() as int);
    let n = new.len() as int;
    assert(new =~= a + "."@ + b);
    assert(final(out)@ =~= old(out)@ + new);
    assert(new.take(n - 3) =~= a);
    assert(new.skip(n - 2) =~= b);
}

/// A count of bytes is told to the nearest tenth of its unit: a kilobyte below
/// a million bytes, a megabyte from there on.
pub proof fn law_byte_counts_are_near(n: u64, r: String, out: &mut String, v: u64)
    requires
        call_ensures(fmt_bytes, (n,), r),
        1000 <= n < 0x20_0000_0000_0000,
        call_ensures(push_tenths, (out, v), ()),
        old(out)@.len() == 0,
        r@.len() > 3 && r@.take(r@.len() - 3) == final(out)@,
    ensures
        n < 1_000_000 ==> 100 * v <= n + 50 && n <= 100 * v + 50,
        n >= 1_000_000 ==> 100_000 * v <= n + 50_000 && n <= 100_000 * v + 50_000,
{
    reveal_strlit(" kB");
    reveal_strlit(" MB");
    lemma_fits(n as nat, LEAST53 as nat);
    let den: nat = if n < 1_000_000 {
        1000
    } else {
        1_000_000
    };
    let u = in_units(rounded(n as nat, den, LEAST53 as nat), 10);
    assert(r@.take(r@.len() - 3) =~= tenths_text(u));
    assert(final(out)@ =~= tenths_text(v as nat));
    lemma_tenths_apart(u, v as nat);
    lemma_grow(n as nat, den * LEAST53 as nat, 1);
    let w = grow(n as nat, den * LEAST53 as nat, 1);
    if n < 1_000_000 {
        assert(w > den) by (nonlinear_arith)
            requires
                w * n >= 1000 * LEAST53,
                n < 1_000_000,
                den == 1000,
                LEAST53 == 0x10_0000_0000_0000,
        ;
        lemma_told_quotient(n as nat, 1000, 10, 100, u);
    } else {
        lemma_told_megabytes(n as nat, u, 10, 100_000);
    }
}

proof fn lemma_told_megabytes(n: nat, u: nat, unit: nat, part: nat)
    requires
        1_000_000 <= n < 0x20_0000_0000_0000,
        u == in_units(rounded(n, 1_000_000, LEAST53 as nat), unit),
        unit == 10 && part == 100_000 || unit == 100 && part == 10_000,
    ensures
        part * u <= n + part / 2,
        n <= part * u + part / 2,
{
    let den: nat = 1_000_000;
    let w = grow(n, den * LEAST53 as nat, 1);
    lemma_grow(n, den * LEAST53 as nat, 1);
    let m = nearest_int(n * w, den);
    lemma_nearest(n * w, den);
    lemma_nearest(m * unit, w);
    assert(2 * w > den) by (nonlinear_arith)
        requires
            w * n >= den * LEAST53,
            n < 0x20_0000_0000_0000,
            den > 0,
            LEAST53 == 0x10_0000_0000_0000,
    ;
    assert(part * (m * unit) == m * den) by (nonlinear_arith)
        requires
            den == unit * part,
    ;
    assert(2 * (part * (u * w)) <= 2 * (part * (m * unit)) + part * w) by (nonlinear_arith)
        requires
            2 * (u * w) <= 2 * (m * unit) + w,
    ;
    assert(2 * (part * (m * unit)) <= 2 * (part * (u * w)) + part * w) by (nonlinear_arith)
        requires
            2 * (m * unit) <= 2 * (u * w) + w,
    ;
    assert(part * (u * w) == (part * u) * w) by (nonlinear_arith);
    assert(2 * (part * u) <= 2 * n + part + 1) by (nonlinear_arith)
        requires
            2 * ((part * u) * w) <= 2 * (n * w) + part * w + den,
            2 * w > den,
    ;
    assert(2 * n <= 2 * (part * u) + part + 1) by (nonlinear_arith)
        requires
            2 * (n * w) <= 2 * ((part * u) * w) + part * w + den,
            2 * w > den,
    ;
}

proof fn lemma_tenths_apart(a: nat, b: nat)
    requires
        tenths_text(a) == tenths_text(b),
    ensures
        a == b,
{
    let (x, y) = (tenths_text(a), tenths_text(b));
    reveal_strlit(".");
    law_decimal_reads_back(a / 10);
    law_decimal_reads_back(b / 10);
    law_decimal_reads_back(a % 10);
    law_decimal_reads_back(b % 10);
    assert(dec(a % 10).len() == 1 && dec(b % 10).len() == 1);
    assert(x.take(x.len() - 2) =~= dec(a / 10));
    assert(y.take(y.len() - 2) =~= dec(b / 10));
    assert(x.skip(x.len() - 1) =~= dec(a % 10));
    assert(y.skip(y.len() - 1) =~= dec(b % 10));
}

/// A total is told to the nearest tenth of a kilobyte below a million bytes,
/// and to the nearest hundredth of a megabyte from there on; the rate stands
/// before it.
pub proof fn law_totals_are_near(
    bytes: u64,
    r: String,
    rate: &str,
    l: String,
    low: &mut String,
    high: &mut String,
    v: u64,
)
    requires
        call_ensures(fmt_total, (bytes,), r),
        call_ensures(rx_label, (rate, bytes), l),
        0 < bytes < 0x20_0000_0000_0000,
        call_ensures(push_tenths, (low, v), ()),
        call_ensures(push_hundredths, (high, v), ()),
        old(low)@.len() == 0 && old(high)@.len() == 0,
        r@.len() > 3,
        bytes < 1_000_000 ==> r@.take(r@.len() - 3) == final(low)@,
        bytes >= 1_000_000 ==> r@.take(r@.len() - 3) == final(high)@,
    ensures
        bytes < 1_000_000 ==> r@.skip(r@.len() - 3) == " kB"@ && 100 * v <= bytes + 50 && bytes
            <= 100 * v + 50,
        bytes >= 1_000_000 ==> r@.skip(r@.len() - 3) == " MB"@ && 10_000 * v <= bytes + 5_000
            && bytes <= 10_000 * v + 5_000,
        l@.take(3 + rate@.len() as int) == "RX "@ + rate@,
        l@.skip(l@.len() - r@.len()) == r@,
{
    reveal_strlit(" kB");
    reveal_strlit(" MB");
    reveal_strlit("RX ");
    lemma_fits(bytes as nat, LEAST53 as nat);
    assert(l@.take(3 + rate@.len() as int) =~= "RX "@ + rate@);
    assert(l@.skip(l@.len() - r@.len()) =~= r@);
    if bytes < 1_000_000 {
        let u = in_units(rounded(bytes as nat, 1000, LEAST53 as nat), 10);
        assert(r@.skip(r@.len() - 3) =~= " kB"@);
        assert(r@.take(r@.len() - 3) =~= tenths_text(u));
        assert(final(low)@ =~= tenths_text(v as nat));
        lemma_tenths_apart(u, v as nat);
        lemma_grow(bytes as nat, 1000 * LEAST53 as nat, 1);
        let w = grow(bytes as nat, 1000 * LEAST53 as nat, 1);
        assert(w > 1000) by (nonlinear_arith)
            requires
                w * bytes >= 1000 * LEAST53,
                bytes < 1_000_000,
                LEAST53 == 0x10_0000_0000_0000,
        ;
        lemma_told_quotient(bytes as nat, 1000, 10, 100, u);
    } else {
        let u = in_units(rounded(bytes as nat, 1_000_000, LEAST53 as nat), 100);
        assert(r@.skip(r@.len() - 3) =~= " MB"@);
        assert(r@.take(r@.len() - 3) =~= crate::decimal::hundredths_text(u));
        assert(final(high)@ =~= crate::decimal::hundredths_text(v as nat));
        lemma_hundredths_apart(u, v as nat);
        lemma_told_megabytes(bytes as nat, u, 100, 10_000);
    }
}

proof fn lemma_hundredths_apart(a: nat, b: nat)
    requires
        crate::decimal::hundredths_text(a) == crate::decimal::hundredths_text(b),
    ensures
        a == b,
{
    let (x, y) = (crate::decimal::hundredths_text(a), crate::decimal::hundredths_text(b));
    reveal_strlit(".");
    reveal_with_fuel(dec, 3);
    law_decimal_reads_back(a / 100);
    law_decimal_reads_back(b / 100);
    lemma_pad_reads(a % 100, 2);
    lemma_pad_reads(b % 100, 2);
    assert(dec_pad(a % 100, 2).len() == 2 && dec_pad(b % 100, 2).len() == 2);
    assert(x.take(x.len() - 3) =~= dec(a / 100));
    assert(y.take(y.len() - 3) =~= dec(b / 100));
    assert(x.skip(x.len() - 2) =~= dec_pad(a % 100, 2));
    assert(y.skip(y.len() - 2) =~= dec_pad(b % 100, 2));
}

/// A time of whole seconds is told exactly below two minutes, with a tenth
/// below ten seconds; then to the nearest minute, and from two hours on to the
/// nearest tenth of an hour.
pub proof fn law_durations_are_near(secs: nat, d: Span, r: String, v: nat)
    requires
        call_ensures(fmt_duration, (d,), r),
        d.nanos == 1_000_000_000 * secs,
    ensures
        secs < 10 ==> r@ == dec(secs) + seq!['.', '0', ' ', 's'],
        10 <= secs < 120 ==> r@ == dec(secs) + " s"@,
        120 <= secs < 7200 && r@ == dec(v) + " min"@ ==> 60 * v <= secs + 30 && secs <= 60 * v + 30,
        120 <= secs < 7200 ==> r@.skip(r@.len() - 4) == " min"@,
        7200 <= secs && r@ == tenths_text(v) + " h"@ ==> 360 * v <= secs + 180 && secs <= 360 * v
            + 180,
        7200 <= secs ==> r@.skip(r@.len() - 2) == " h"@,
{
    reveal_strlit(" s");
    reveal_strlit(".");
    reveal_strlit(" min");
    reveal_strlit(" h");
    assert(d.nanos / 1_000_000_000 == secs);
    assert(d.nanos % 1_000_000_000 == 0);
    assert(secs < 0x5_0000_0000);
    lemma_fits(secs, LEAST53 as nat);
    lemma_whole(secs);
    assert(rounded(0, 1_000_000_000, LEAST53 as nat) == (0nat, 1nat));
    let s = crate::workers::ntrip::seconds_value(d);
    assert(s == (secs, 1nat));
    lemma_whole(secs * 10);
    if secs < 10 {
        assert(r@ == tenths_text(secs * 10) + " s"@);
        assert(secs * 10 / 10 == secs && secs * 10 % 10 == 0);
        assert(dec(0) =~= seq!['0']);
        assert(r@ =~= dec(secs) + seq!['.', '0', ' ', 's']);
    } else if secs < 120 {
        assert(secs * 1 == secs);
    } else if secs < 7200 {
        let u = in_units(rounded(secs, 60, LEAST53 as nat), 1);
        assert(r@ == dec(u) + " min"@);
        assert(r@.skip(r@.len() - 4) =~= " min"@);
        if r@ == dec(v) + " min"@ {
            assert(r@.take(r@.len() - 4) =~= dec(u));
            assert(r@.take(r@.len() - 4) =~= dec(v));
            law_decimal_reads_back(u);
            law_decimal_reads_back(v);
        }
        lemma_grow(secs, 60 * LEAST53 as nat, 1);
        let w = grow(secs, 60 * LEAST53 as nat, 1);
        assert(w > 60) by (nonlinear_arith)
            requires
                w * secs >= 60 * LEAST53,
                secs < 7200,
                LEAST53 == 0x10_0000_0000_0000,
        ;
        lemma_told_quotient(secs, 60, 1, 60, u);
    } else {
        let u = in_units(rounded(secs, 3600, LEAST53 as nat), 10);
        assert(r@ == tenths_text(u) + " h"@);
        assert(r@.skip(r@.len() - 2) =~= " h"@);
        if r@ == tenths_text(v) + " h"@ {
            assert(r@.take(r@.len() - 2) =~= tenths_text(u));
            assert(r@.take(r@.len() - 2) =~= tenths_text(v));
            lemma_tenths_apart(u, v);
        }
        lemma_grow(secs, 3600 * LEAST53 as nat, 1);
        let w = grow(secs, 3600 * LEAST53 as nat, 1);
        assert(w > 3600) by (nonlinear_arith)
            requires
                w * secs >= 3600 * LEAST53,
                secs < 0x5_0000_0000,
                LEAST53 == 0x10_0000_0000_0000,
        ;
        lemma_told_quotient(secs, 3600, 10, 360, u);
    }
}

/// Whole seconds of silence are told as they are.
pub proof fn law_silence_is_told_in_seconds(out: &mut String, d: Span, secs: nat)
    requires
        call_ensures(push_seconds, (out, d), ()),
        d.nanos == 1_000_000_000 * secs,
        secs < 0x100_0000,
    ensures
        final(out)@ == old(out)@ + dec(secs),
{
    assert(d.nanos / 1_000_000_000 == secs);
    assert(d.nanos % 1_000_000_000 == 0);
    lemma_fits(secs, LEAST24 as nat);
    lemma_fits(0, LEAST24 as nat);
    lemma_whole(secs);
    assert(rounded(0, 1_000_000_000, LEAST24 as nat) == (0nat, 1nat));
    assert(secs * 1 == secs);
}

} // verus!
