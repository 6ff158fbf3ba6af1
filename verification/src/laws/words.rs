//! Laws of texts and numbers.
use vstd::prelude::*;
use vstd::utf8::encode_utf8;

use crate::order::lex;
use crate::text::{
    dec, dec_string, find_char, is_white, parse_uint, plain_uint, push_dec, push_dec_pad,
    same_text_ci, split, trim_back, trim_front, trimmed,
};
use crate::ui::main_window::iso_date;
use crate::workers::ntrip::mountpoint_needs_encoding;
use crate::ui::text::{contains_ci, contains_ignore_ascii_case, lower_bytes, occurs_at};

verus! {

/// The number that decimal digits stand for, read from the front.
pub open spec fn read_from(s: Seq<char>, so_far: int) -> int
    decreases s.len(),
{
    if s.len() == 0 {
        so_far
    } else {
        read_from(s.skip(1), 10 * so_far + (s[0] as int - '0' as int))
    }
}

/// The number that decimal digits stand for.
pub open spec fn reads(s: Seq<char>) -> int {
    read_from(s, 0)
}

/// Whether a text is decimal digits, and no others.
pub open spec fn numeral(s: Seq<char>) -> bool {
    s.len() > 0 && forall|i: int| 0 <= i < s.len() ==> '0' <= #[trigger] s[i] <= '9'
}

proof fn lemma_read_push(s: Seq<char>, c: char, so_far: int)
    ensures
        read_from(s.push(c), so_far) == 10 * read_from(s, so_far) + (c as int - '0' as int),
    decreases s.len(),
{
    let t = s.push(c);
    if s.len() == 0 {
        reveal_with_fuel(read_from, 2);
        assert(t.skip(1) =~= Seq::<char>::empty());
        assert(t[0] == c);
    } else {
        assert(t[0] == s[0]);
        assert(t.skip(1) =~= s.skip(1).push(c));
        lemma_read_push(s.skip(1), c, 10 * so_far + (s[0] as int - '0' as int));
    }
}

/// The decimal text of a number reads as that number, and begins with a zero
/// only where it is zero.
pub proof fn law_decimal_reads_back(n: nat)
    ensures
        numeral(dec(n)),
        reads(dec(n)) == n,
        n > 0 ==> dec(n)[0] != '0',
    decreases n,
{
    if n >= 10 {
        law_decimal_reads_back(n / 10);
        let head = dec(n / 10);
        let c = crate::text::digit(n % 10);
        lemma_read_push(head, c, 0);
        assert(dec(n) == head.push(c));
        assert forall|i: int| 0 <= i < dec(n).len() implies '0' <= #[trigger] dec(n)[i] <= '9' by {
            if i < head.len() {
                assert(dec(n)[i] == head[i]);
            }
        }
    } else {
        assert(dec(n).skip(1) =~= Seq::<char>::empty());
        reveal_with_fuel(read_from, 2);
    }
}

/// A number is printed as the text that reads as it, behind what was there.
pub proof fn law_numbers_are_printed(n: u64, r: String, out: &mut String)
    requires
        call_ensures(dec_string, (n,), r),
        call_ensures(push_dec, (out, n), ()),
    ensures
        numeral(r@) && reads(r@) == n,
        final(out)@ == old(out)@ + r@,
{
    law_decimal_reads_back(n as nat);
}

proof fn lemma_read_zeros(z: Seq<char>, s: Seq<char>)
    requires
        forall|i: int| 0 <= i < z.len() ==> #[trigger] z[i] == '0',
    ensures
        reads(z + s) == reads(s),
    decreases z.len(),
{
    if z.len() == 0 {
        assert(z + s =~= s);
    } else {
        assert((z + s).skip(1) =~= z.skip(1) + s);
        lemma_read_zeros(z.skip(1), s);
    }
}

/// A padded number keeps its value, and is as wide as asked, or as it must be.
pub proof fn law_padding_keeps_the_value(n: u64, w: usize, out: &mut String)
    requires
        call_ensures(push_dec_pad, (out, n, w), ()),
    ensures
        ({
            let new = final(out)@.skip(old(out)@.len() as int);
            &&& final(out)@ == old(out)@ + new
            &&& numeral(new) && reads(new) == n
            &&& new.len() >= w
            &&& new.len() > w ==> new[0] != '0' || n == 0
        }),
{
    let d = dec(n as nat);
    law_decimal_reads_back(n as nat);
    let new = final(out)@.skip(old(out)@.len() as int);
    assert(new =~= crate::text::dec_pad(n as nat, w as nat));
    assert(final(out)@ =~= old(out)@ + new);
    if d.len() < w {
        let z = crate::text::repeat('0', (w - d.len()) as nat);
        lemma_read_zeros(z, d);
        assert(new =~= z + d);
    }
}

/// A padded number reads as the number.
pub proof fn lemma_pad_reads(n: nat, w: nat)
    ensures
        numeral(crate::text::dec_pad(n, w)),
        reads(crate::text::dec_pad(n, w)) == n,
{
    let d = dec(n);
    law_decimal_reads_back(n);
    if d.len() < w {
        lemma_read_zeros(crate::text::repeat('0', (w - d.len()) as nat), d);
    }
}

proof fn lemma_piece(a: Seq<char>, c: char, rest: Seq<char>)
    requires
        forall|i: int| 0 <= i < a.len() ==> #[trigger] a[i] != c,
    ensures
        split(a + seq![c] + rest, c) == seq![a] + split(rest, c),
        split(a, c) == seq![a],
{
    let s = a + seq![c] + rest;
    lemma_first_at(s, c, a.len() as int);
    lemma_first_at(a, c, a.len() as int);
    assert(s.take(a.len() as int) =~= a);
    assert(s.skip(a.len() as int + 1) =~= rest);
}

/// Where the first of a character stands.
pub proof fn lemma_first_at(s: Seq<char>, c: char, i: int)
    requires
        0 <= i <= s.len(),
        forall|k: int| 0 <= k < i ==> #[trigger] s[k] != c,
        i == s.len() || s[i] == c,
    ensures
        find_char(s, c) == i,
    decreases i,
{
    if i > 0 {
        assert(forall|k: int| 0 <= k < i - 1 ==> #[trigger] s.skip(1)[k] == s[k + 1]);
        lemma_first_at(s.skip(1), c, i - 1);
    }
}

/// The first of a character stands behind others only, or there is none.
pub proof fn lemma_found_at(s: Seq<char>, c: char) -> (i: int)
    ensures
        i == find_char(s, c),
        0 <= i <= s.len(),
        i < s.len() ==> s[i] == c,
        forall|k: int| 0 <= k < i ==> #[trigger] s[k] != c,
    decreases s.len(),
{
    if s.len() == 0 || s[0] == c {
        0
    } else {
        let t = s.skip(1);
        let j = lemma_found_at(t, c);
        assert forall|k: int| 0 <= k < j + 1 implies #[trigger] s[k] != c by {
            if k > 0 {
                assert(t[k - 1] == s[k]);
            }
        }
        j + 1
    }
}

/// Three numerals with dashes between them are read as a date, part by part.
pub proof fn lemma_date_parts(y: Seq<char>, m: Seq<char>, d: Seq<char>)
    requires
        numeral(y) && numeral(m) && numeral(d),
    ensures
        ({
            let s = y + seq!['-'] + m + seq!['-'] + d;
            &&& iso_date(s) is Some <==> reads(y) <= 0x7FFF_FFFF && 1 <= reads(m) <= 12 && 1
                <= reads(d) <= 31
            &&& iso_date(s) matches Some(t) ==> t.0 == reads(y) && t.1 == reads(m) && t.2
                == reads(d)
        }),
{
    let s = y + seq!['-'] + m + seq!['-'] + d;
    let rest = m + seq!['-'] + d;
    assert(s =~= y + seq!['-'] + rest);
    lemma_piece(y, '-', rest);
    lemma_piece(m, '-', d);
    lemma_piece(d, '-', Seq::empty());
    assert(split(s, '-') =~= seq![y, m, d]);
    lemma_digits_value(y);
    lemma_digits_value(m);
    lemma_digits_value(d);
}

/// What reads a number reads it as printed, and takes no other value: every
/// number up to the limit is read from its own text.
pub proof fn law_printed_numbers_are_read(n: u64, max: u64, s: &str, r: Option<u64>, p: Option<u64>)
    requires
        call_ensures(parse_uint, (s, max), r),
        call_ensures(plain_uint, (s, max), p),
        s@ == dec(n as nat),
        n <= max,
    ensures
        r == Some(n),
        p == Some(n),
{
    law_decimal_reads_back(n as nat);
    lemma_digits_value(s@);
}

/// The value of digits is the number that they read as.
pub proof fn lemma_digits_value(s: Seq<char>)
    requires
        forall|i: int| 0 <= i < s.len() ==> '0' <= #[trigger] s[i] <= '9',
    ensures
        crate::text::digits_value(s) == reads(s),
    decreases s.len(),
{
    if s.len() > 0 {
        let head = s.drop_last();
        lemma_digits_value(head);
        lemma_read_push(head, s.last(), 0);
        assert(head.push(s.last()) =~= s);
    }
}

/// What is read as a number is a numeral, with one plus sign before it at
/// most, whose value it is and which does not pass the limit.
pub proof fn law_numbers_are_read_exactly(s: &str, max: u64, r: Option<u64>, p: Option<u64>)
    requires
        call_ensures(parse_uint, (s, max), r),
        call_ensures(plain_uint, (s, max), p),
    ensures
        r matches Some(n) ==> n <= max && (numeral(s@) && reads(s@) == n || (s@.len() > 1 && s@[0]
            == '+' && numeral(s@.skip(1)) && reads(s@.skip(1)) == n)),
        p matches Some(n) ==> n <= max && numeral(s@) && reads(s@) == n,
        numeral(s@) && reads(s@) <= max ==> r is Some && p is Some,
{
    if numeral(s@) {
        lemma_digits_value(s@);
    }
    let t = s@.skip(1);
    if numeral(t) {
        lemma_digits_value(t);
    }
    if r is Some {
        let u = crate::text::strip_plus(s@);
        assert(numeral(u));
    }
}

proof fn lemma_front(s: Seq<char>) -> (i: int)
    ensures
        0 <= i <= s.len(),
        trim_front(s) == s.skip(i),
        forall|k: int| 0 <= k < i ==> is_white(#[trigger] s[k]),
        i < s.len() ==> !is_white(s[i]),
    decreases s.len(),
{
    if s.len() > 0 && is_white(s[0]) {
        let t = s.skip(1);
        let j = lemma_front(t);
        assert(t.skip(j) =~= s.skip(j + 1));
        assert forall|k: int| 0 <= k < j + 1 implies is_white(#[trigger] s[k]) by {
            if k > 0 {
                assert(t[k - 1] == s[k]);
            }
        }
        if j < t.len() {
            assert(t[j] == s[j + 1]);
        }
        j + 1
    } else {
        assert(s.skip(0) =~= s);
        0
    }
}

proof fn lemma_back(s: Seq<char>) -> (n: int)
    ensures
        0 <= n <= s.len(),
        trim_back(s) == s.take(n),
        forall|k: int| n <= k < s.len() ==> is_white(#[trigger] s[k]),
        n > 0 ==> !is_white(s[n - 1]),
    decreases s.len(),
{
    if s.len() > 0 && is_white(s.last()) {
        let t = s.drop_last();
        let n = lemma_back(t);
        assert(t.take(n) =~= s.take(n));
        assert forall|k: int| n <= k < s.len() implies is_white(#[trigger] s[k]) by {
            if k < t.len() {
                assert(t[k] == s[k]);
            }
        }
        n
    } else {
        assert(s.take(s.len() as int) =~= s);
        s.len() as int
    }
}

/// Trimming takes white space off both ends, and nothing else: what is left
/// neither begins nor ends with any, and only white space is gone.
pub proof fn law_trimming_takes_white_space(s: &str, r: &str)
    requires
        call_ensures(trimmed, (s,), r),
    ensures
        r@.len() > 0 ==> !is_white(r@[0]) && !is_white(r@.last()),
        exists|from: int, to: int|
            {
                &&& 0 <= from <= to <= s@.len()
                &&& #[trigger] s@.subrange(from, to) == r@
                &&& forall|k: int| 0 <= k < from ==> is_white(#[trigger] s@[k])
                &&& forall|k: int| to <= k < s@.len() ==> is_white(#[trigger] s@[k])
            },
{
    let i = lemma_front(s@);
    let t = s@.skip(i);
    let n = lemma_back(t);
    assert(t.take(n) =~= s@.subrange(i, i + n));
    assert forall|k: int| i + n <= k < s@.len() implies is_white(#[trigger] s@[k]) by {
        assert(t[k - i] == s@[k]);
    }
    if n > 0 {
        assert(r@[0] == s@[i]);
        assert(r@.last() == t[n - 1]);
    }
    assert(s@.subrange(i, i + n) == r@);
}

/// White space is what Rust's documentation calls so; letters, digits and
/// punctuation are none.
pub proof fn law_white_space_is_unprinted(c: char)
    ensures
        is_white(' ') && is_white('\t') && is_white('\r') && is_white('\n'),
        0x21 <= c as u32 <= 0x7e ==> !is_white(c),
{
}

/// A byte with an ASCII capital made small.
pub open spec fn small(b: u8) -> int {
    if 'A' as int <= b <= 'Z' as int {
        b + 32
    } else {
        b as int
    }
}

/// Whether two texts have the same bytes up to ASCII case.
pub open spec fn same_ci(a: Seq<char>, b: Seq<char>) -> bool {
    let (x, y) = (encode_utf8(a), encode_utf8(b));
    x.len() == y.len() && forall|i: int| 0 <= i < x.len() ==> small(#[trigger] x[i]) == small(y[i])
}

/// Whether the texts agree up to byte `k`, and the first comes before the
/// other there: it ends, or has the smaller byte.
pub open spec fn differs_at(a: Seq<char>, b: Seq<char>, k: int) -> bool {
    let (x, y) = (encode_utf8(a), encode_utf8(b));
    &&& 0 <= k <= x.len() && k < y.len()
    &&& forall|i: int| 0 <= i < k ==> small(#[trigger] x[i]) == small(y[i])
    &&& k == x.len() || small(x[k]) < small(y[k])
}

/// Whether a text comes before another, ASCII case aside.
pub open spec fn before_ci(a: Seq<char>, b: Seq<char>) -> bool {
    exists|k: int| #[trigger] differs_at(a, b, k)
}

/// Where two byte strings first differ, and what that says of their order.
pub proof fn lemma_lex_difference(x: Seq<u8>, y: Seq<u8>) -> (k: int)
    ensures
        0 <= k <= x.len(),
        k <= y.len(),
        forall|i: int| 0 <= i < k ==> #[trigger] x[i] == y[i],
        lex(x, y) < 0 <==> k < y.len() && (k == x.len() || x[k] < y[k]),
        lex(x, y) == 0 <==> k == x.len() && k == y.len(),
    decreases x.len(),
{
    if x.len() > 0 && y.len() > 0 && x[0] == y[0] {
        let (s, t) = (x.skip(1), y.skip(1));
        let k = lemma_lex_difference(s, t);
        assert forall|i: int| 0 <= i < k + 1 implies #[trigger] x[i] == y[i] by {
            if i > 0 {
                assert(s[i - 1] == x[i] && t[i - 1] == y[i]);
            }
        }
        if k < s.len() {
            assert(s[k] == x[k + 1]);
        }
        if k < t.len() {
            assert(t[k] == y[k + 1]);
        }
        k + 1
    } else {
        0
    }
}

/// The order behind every sorted column, said of the bytes.
pub proof fn lemma_ci_order(a: Seq<char>, b: Seq<char>)
    ensures
        lex(lower_bytes(encode_utf8(a)), lower_bytes(encode_utf8(b))) < 0 ==> before_ci(a, b),
        lex(lower_bytes(encode_utf8(a)), lower_bytes(encode_utf8(b))) == 0 ==> same_ci(a, b),
{
    let (x, y) = (lower_bytes(encode_utf8(a)), lower_bytes(encode_utf8(b)));
    let k = lemma_lex_difference(x, y);
    assert forall|i: int| 0 <= i < k implies small(#[trigger] encode_utf8(a)[i]) == small(
        encode_utf8(b)[i],
    ) by {
        assert(x[i] == y[i]);
    }
    if lex(x, y) < 0 {
        if k < x.len() {
            assert(x[k] < y[k]);
        }
        assert(differs_at(a, b, k));
    }
}

/// Whether a text's bytes stand in another's from byte `i` on, ASCII case
/// aside.
pub open spec fn stands_at(haystack: Seq<char>, needle: Seq<char>, i: int) -> bool {
    let (h, n) = (encode_utf8(haystack), encode_utf8(needle));
    0 <= i <= h.len() - n.len() && forall|j: int|
        0 <= j < n.len() ==> small(h[i + j]) == small(#[trigger] n[j])
}

/// Whether a text's bytes stand anywhere in another's, ASCII case aside.
pub open spec fn found_ci(haystack: Seq<char>, needle: Seq<char>) -> bool {
    exists|i: int| #[trigger] stands_at(haystack, needle, i)
}

pub proof fn lemma_found(haystack: Seq<char>, needle: Seq<char>)
    ensures
        contains_ci(haystack, needle) <==> found_ci(haystack, needle),
{
    let (h, n) = (encode_utf8(haystack), encode_utf8(needle));
    if contains_ci(haystack, needle) {
        let i = choose|i: int| #[trigger] occurs_at(h, n, i);
        assert(stands_at(haystack, needle, i));
    }
    if found_ci(haystack, needle) {
        let i = choose|i: int| #[trigger] stands_at(haystack, needle, i);
        assert(occurs_at(h, n, i));
    }
}

/// The filter rule, of the function behind every filter box.
pub proof fn law_filters_ignore_case(haystack: &str, needle: &str, r: bool)
    requires
        call_ensures(contains_ignore_ascii_case, (haystack, needle), r),
    ensures
        r <==> found_ci(haystack@, needle@),
{
    lemma_found(haystack@, needle@);
}

/// Texts are the same up to case exactly when they are as long and each pair
/// of characters is the same, or one letter in both cases.
pub proof fn law_same_up_to_case(a: &str, b: &str, r: bool)
    requires
        call_ensures(same_text_ci, (a, b), r),
    ensures
        r <==> a@.len() == b@.len() && forall|i: int|
            0 <= i < a@.len() ==> (#[trigger] a@[i] == b@[i] || ('A' <= a@[i] <= 'Z' && b@[i] as int
                == a@[i] as int + 32) || ('A' <= b@[i] <= 'Z' && a@[i] as int == b@[i] as int
                + 32)),
{
    let (x, y) = (crate::text::lower(a@), crate::text::lower(b@));
    if r {
        assert(x.len() == y.len());
        assert forall|i: int| 0 <= i < a@.len() implies (#[trigger] a@[i] == b@[i] || ('A' <= a@[i]
            <= 'Z' && b@[i] as int == a@[i] as int + 32) || ('A' <= b@[i] <= 'Z' && a@[i] as int
            == b@[i] as int + 32)) by {
            assert(x[i] == y[i]);
        }
    }
    if a@.len() == b@.len() && forall|i: int|
        0 <= i < a@.len() ==> (#[trigger] a@[i] == b@[i] || ('A' <= a@[i] <= 'Z' && b@[i] as int
            == a@[i] as int + 32) || ('A' <= b@[i] <= 'Z' && a@[i] as int == b@[i] as int + 32)) {
        assert(x =~= y) by {
            assert forall|i: int| 0 <= i < x.len() implies x[i] == y[i] by {
                assert(a@[i] == b@[i] || true);
            }
        }
    }
}

/// A mountpoint goes as it is where each byte of it can stand in a request
/// line: none a space, a control character, or beyond ASCII.
pub proof fn law_plain_mountpoints_go_as_they_are(mount: &str, r: bool, i: int)
    requires
        call_ensures(mountpoint_needs_encoding, (mount,), r),
    ensures
        !r && 0 <= i < encode_utf8(mount@).len() ==> 0x21 <= encode_utf8(mount@)[i] <= 0x7e,
        0 <= i < encode_utf8(mount@).len() && !(0x21 <= encode_utf8(mount@)[i] <= 0x7e) ==> r,
        r ==> exists|k: int|
            0 <= k < encode_utf8(mount@).len() && !(0x21 <= #[trigger] encode_utf8(mount@)[k]
                <= 0x7e),
{
    if 0 <= i < encode_utf8(mount@).len() {
        assert(crate::workers::ntrip::needs_encoding(encode_utf8(mount@)[i]) ==> r);
    }
}

} // verus!
