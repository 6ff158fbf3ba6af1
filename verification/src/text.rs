//! Text primitives: the character-sequence functions that contracts speak of,
//! and the verified string builders and scanners that compute them.
use vstd::prelude::*;

verus! {

/// `String::push` appends one character to the end of the string.
pub assume_specification[ String::push ](s: &mut String, c: char)
    ensures
        final(s)@ == old(s)@.push(c),
;

// ---------------------------------------------------------------------
// Digits
// ---------------------------------------------------------------------

/// The decimal digit of `d`, for `d < 10`.
pub open spec fn digit(d: nat) -> char {
    (48 + d) as char
}

/// Decimal rendering, no leading zeros.
pub open spec fn dec(n: nat) -> Seq<char>
    decreases n,
{
    if n < 10 {
        seq![digit(n)]
    } else {
        dec(n / 10).push(digit(n % 10))
    }
}

/// Distinct numbers have distinct decimal texts.
pub proof fn lemma_dec_injective(a: nat, b: nat)
    requires
        dec(a) == dec(b),
    ensures
        a == b,
    decreases a,
{
    assert(dec(a).len() > 0 && dec(b).len() > 0);
    if a < 10 {
        if b >= 10 {
            assert(dec(b / 10).len() > 0);
            assert(dec(b).len() > 1);
        }
        assert(dec(a)[0] == digit(a));
        assert(dec(b)[0] == digit(b));
    } else {
        assert(dec(a / 10).len() > 0);
        assert(dec(a).len() > 1);
        assert(b >= 10);
        assert(dec(a / 10) =~= dec(a).drop_last());
        assert(dec(b / 10) =~= dec(b).drop_last());
        assert(dec(a).last() == digit(a % 10));
        assert(dec(b).last() == digit(b % 10));
        lemma_dec_injective(a / 10, b / 10);
    }
}

/// `n` copies of `c`.
pub open spec fn repeat(c: char, n: nat) -> Seq<char> {
    Seq::new(n, |i: int| c)
}

/// Left-pad `s` with `c` to at least `w` characters.
pub open spec fn pad_left(s: Seq<char>, w: nat, c: char) -> Seq<char> {
    if s.len() >= w {
        s
    } else {
        repeat(c, (w - s.len()) as nat) + s
    }
}

/// Decimal rendering, zero-padded to at least `w` digits.
pub open spec fn dec_pad(n: nat, w: nat) -> Seq<char> {
    pad_left(dec(n), w, '0')
}

/// Upper-case hexadecimal digit of `d`, for `d < 16`.
pub open spec fn hex_digit(d: nat) -> char {
    if d < 10 {
        (48 + d) as char
    } else {
        (55 + d) as char
    }
}

/// Upper-case hexadecimal rendering, no leading zeros.
pub open spec fn hex(n: nat) -> Seq<char>
    decreases n,
{
    if n < 16 {
        seq![hex_digit(n)]
    } else {
        hex(n / 16).push(hex_digit(n % 16))
    }
}

/// Upper-case hexadecimal rendering, zero-padded to at least `w` digits.
pub open spec fn hex_pad(n: nat, w: nat) -> Seq<char> {
    pad_left(hex(n), w, '0')
}

fn digit_char(d: u8) -> (c: char)
    requires
        d < 10,
    ensures
        c == digit(d as nat),
{
    (48 + d) as char
}

fn hex_digit_char(d: u8) -> (c: char)
    requires
        d < 16,
    ensures
        c == hex_digit(d as nat),
{
    if d < 10 {
        (48 + d) as char
    } else {
        (55 + d) as char
    }
}

/// Append the decimal rendering of `n`.
pub fn push_dec(out: &mut String, n: u64)
    ensures
        final(out)@ == old(out)@ + dec(n as nat),
    decreases n,
{
    let ghost start = out@;
    if n >= 10 {
        push_dec(out, n / 10);
    }
    out.push(digit_char((n % 10) as u8));
    proof {
        assert(out@ =~= start + dec(n as nat));
    }
}

/// The decimal rendering of `n`.
pub fn dec_string(n: u64) -> (r: String)
    ensures
        r@ == dec(n as nat),
{
    let mut out = String::new();
    push_dec(&mut out, n);
    proof {
        assert(Seq::<char>::empty() + dec(n as nat) =~= dec(n as nat));
    }
    out
}

fn push_hex(out: &mut String, n: u64)
    ensures
        final(out)@ == old(out)@ + hex(n as nat),
    decreases n,
{
    let ghost start = out@;
    if n >= 16 {
        push_hex(out, n / 16);
    }
    out.push(hex_digit_char((n % 16) as u8));
    proof {
        assert(out@ =~= start + hex(n as nat));
    }
}

/// Append `n` copies of `c`.
pub fn push_repeat(out: &mut String, c: char, n: usize)
    ensures
        final(out)@ == old(out)@ + repeat(c, n as nat),
{
    let ghost start = out@;
    let mut i: usize = 0;
    while i < n
        invariant
            i <= n,
            out@ =~= start + repeat(c, i as nat),
        decreases n - i,
    {
        out.push(c);
        i += 1;
    }
}

/// Append `s` left-padded with `c` to at least `w` characters.
pub fn push_padded(out: &mut String, s: &str, w: usize, c: char)
    ensures
        final(out)@ == old(out)@ + pad_left(s@, w as nat, c),
{
    let ghost start = out@;
    let have: usize = s.unicode_len();
    if have < w {
        push_repeat(out, c, w - have);
    }
    out.append(s);
    proof {
        assert(out@ =~= start + pad_left(s@, w as nat, c));
    }
}

/// Append the decimal rendering of `n`, zero-padded to at least `w` digits.
pub fn push_dec_pad(out: &mut String, n: u64, w: usize)
    ensures
        final(out)@ == old(out)@ + dec_pad(n as nat, w as nat),
{
    let digits = dec_string(n);
    push_padded(out, digits.as_str(), w, '0');
}

/// Append the upper-case hexadecimal rendering of `n`, zero-padded to at
/// least `w` digits.
pub fn push_hex_pad(out: &mut String, n: u64, w: usize)
    ensures
        final(out)@ == old(out)@ + hex_pad(n as nat, w as nat),
{
    let mut digits = String::new();
    push_hex(&mut digits, n);
    proof {
        assert(Seq::<char>::empty() + hex(n as nat) =~= hex(n as nat));
    }
    push_padded(out, digits.as_str(), w, '0');
}

// ---------------------------------------------------------------------
// Conversions and equality
// ---------------------------------------------------------------------

/// The characters of `s`.
pub fn chars_of(s: &str) -> (v: Vec<char>)
    ensures
        v@ == s@,
{
    let mut v: Vec<char> = Vec::new();
    for c in it: s.chars()
        invariant
            it.seq() == s@,
            v@ == s@.take(it.index() as int),
    {
        v.push(c);
        proof {
            assert(s@.take(it.index() + 1 as int) =~= s@.take(it.index() as int).push(c));
        }
    }
    proof {
        assert(s@.take(s@.len() as int) =~= s@);
    }
    v
}

/// The string of the characters `v[from..to]`.
pub fn string_of(v: &Vec<char>, from: usize, to: usize) -> (s: String)
    requires
        from <= to <= v@.len(),
    ensures
        s@ == v@.subrange(from as int, to as int),
{
    let mut s = String::new();
    let mut i: usize = from;
    while i < to
        invariant
            from <= i <= to <= v@.len(),
            s@ =~= v@.subrange(from as int, i as int),
        decreases to - i,
    {
        s.push(v[i]);
        i += 1;
    }
    s
}

/// Whether two texts hold the same characters.
pub fn same_text(a: &str, b: &str) -> (r: bool)
    ensures
        r == (a@ == b@),
{
    a.to_owned() == b.to_owned()
}

// ---------------------------------------------------------------------
// Case and white space
// ---------------------------------------------------------------------

/// ASCII lower-casing of one character; every other character is kept.
pub open spec fn lower_char(c: char) -> char {
    if 'A' <= c <= 'Z' {
        (c as u32 + 32) as char
    } else {
        c
    }
}

/// ASCII lower-casing.
pub open spec fn lower(s: Seq<char>) -> Seq<char> {
    Seq::new(s.len(), |i: int| lower_char(s[i]))
}

/// Equality up to ASCII case.
pub open spec fn eq_ci(a: Seq<char>, b: Seq<char>) -> bool {
    lower(a) == lower(b)
}

/// The Unicode `White_Space` property.
pub open spec fn is_white(c: char) -> bool {
    let n = c as u32;
    ||| 9 <= n <= 13
    ||| n == 32
    ||| n == 0x85
    ||| n == 0xA0
    ||| n == 0x1680
    ||| 0x2000 <= n <= 0x200A
    ||| n == 0x2028
    ||| n == 0x2029
    ||| n == 0x202F
    ||| n == 0x205F
    ||| n == 0x3000
}

/// `s` without its leading white space.
pub open spec fn trim_front(s: Seq<char>) -> Seq<char>
    decreases s.len(),
{
    if s.len() > 0 && is_white(s[0]) {
        trim_front(s.skip(1))
    } else {
        s
    }
}

/// `s` without its trailing white space.
pub open spec fn trim_back(s: Seq<char>) -> Seq<char>
    decreases s.len(),
{
    if s.len() > 0 && is_white(s.last()) {
        trim_back(s.drop_last())
    } else {
        s
    }
}

/// `s` without leading and trailing white space.
pub open spec fn trim(s: Seq<char>) -> Seq<char> {
    trim_back(trim_front(s))
}

fn lower_char_exec(c: char) -> (r: char)
    ensures
        r == lower_char(c),
{
    if 'A' <= c && c <= 'Z' {
        let b: u8 = c as u8;
        (b + 32) as char
    } else {
        c
    }
}

fn is_white_exec(c: char) -> (r: bool)
    ensures
        r == is_white(c),
{
    let n: u32 = c as u32;
    (9 <= n && n <= 13) || n == 32 || n == 0x85 || n == 0xA0 || n == 0x1680 || (0x2000 <= n && n
        <= 0x200A) || n == 0x2028 || n == 0x2029 || n == 0x202F || n == 0x205F || n == 0x3000
}

/// ASCII lower-casing, as a new string.
pub fn ascii_lower(s: &str) -> (r: String)
    ensures
        r@ == lower(s@),
{
    let v = chars_of(s);
    let mut r = String::new();
    let mut i: usize = 0;
    while i < v.len()
        invariant
            v@ == s@,
            i <= v@.len(),
            r@ =~= lower(s@).take(i as int),
        decreases v.len() - i,
    {
        r.push(lower_char_exec(v[i]));
        i += 1;
    }
    proof {
        assert(lower(s@).take(i as int) =~= lower(s@));
    }
    r
}

/// Equality up to ASCII case.
pub fn same_text_ci(a: &str, b: &str) -> (r: bool)
    ensures
        r == eq_ci(a@, b@),
{
    ascii_lower(a) == ascii_lower(b)
}

/// Texts that differ in length, or at one place even after lower-casing, are
/// not equal up to ASCII case.
pub proof fn lemma_ci_differs(a: Seq<char>, b: Seq<char>, i: int)
    requires
        a.len() != b.len() || (0 <= i < a.len() && lower_char(a[i]) != lower_char(b[i])),
    ensures
        !eq_ci(a, b),
{
    if a.len() == b.len() {
        assert(lower(a)[i] != lower(b)[i]);
    } else {
        assert(lower(a).len() != lower(b).len());
    }
}

proof fn lemma_trim_front(s: Seq<char>, i: int)
    requires
        0 <= i <= s.len(),
        forall|k: int| 0 <= k < i ==> is_white(#[trigger] s[k]),
        i == s.len() || !is_white(s[i]),
    ensures
        trim_front(s) == s.skip(i),
    decreases i,
{
    if i == 0 {
        assert(s.skip(0) =~= s);
    } else {
        let t = s.skip(1);
        assert forall|k: int| 0 <= k < i - 1 implies is_white(#[trigger] t[k]) by {
            assert(t[k] == s[k + 1]);
        }
        lemma_trim_front(t, i - 1);
        assert(t.skip(i - 1) =~= s.skip(i));
    }
}

proof fn lemma_trim_back(s: Seq<char>, n: int)
    requires
        0 <= n <= s.len(),
        forall|k: int| n <= k < s.len() ==> is_white(#[trigger] s[k]),
        n == 0 || !is_white(s[n - 1]),
    ensures
        trim_back(s) == s.take(n),
    decreases s.len(),
{
    if n == s.len() {
        assert(s.take(n) =~= s);
    } else {
        let t = s.drop_last();
        assert forall|k: int| n <= k < t.len() implies is_white(#[trigger] t[k]) by {
            assert(t[k] == s[k]);
        }
        lemma_trim_back(t, n);
        assert(t.take(n) =~= s.take(n));
    }
}

/// `s` without leading and trailing white space.
pub fn trimmed<'a>(s: &'a str) -> (r: &'a str)
    ensures
        r@ == trim(s@),
{
    let v = chars_of(s);
    let mut i: usize = 0;
    while i < v.len() && is_white_exec(v[i])
        invariant
            i <= v@.len(),
            forall|k: int| 0 <= k < i ==> is_white(#[trigger] v@[k]),
        decreases v.len() - i,
    {
        i += 1;
    }
    proof {
        lemma_trim_front(v@, i as int);
    }
    let mut n: usize = v.len();
    while n > i && is_white_exec(v[n - 1])
        invariant
            i <= n <= v@.len(),
            forall|k: int| n <= k < v@.len() ==> is_white(#[trigger] v@[k]),
        decreases n,
    {
        n -= 1;
    }
    proof {
        let t = v@.skip(i as int);
        assert forall|k: int| n - i <= k < t.len() implies is_white(#[trigger] t[k]) by {
            assert(t[k] == v@[k + i]);
        }
        lemma_trim_back(t, n - i);
        assert(t.take(n - i) =~= v@.subrange(i as int, n as int));
    }
    s.substring_char(i, n)
}

/// `s` without trailing white space.
pub fn trimmed_end<'a>(s: &'a str) -> (r: &'a str)
    ensures
        r@ == trim_back(s@),
{
    let v = chars_of(s);
    let mut n: usize = v.len();
    while n > 0 && is_white_exec(v[n - 1])
        invariant
            n <= v@.len(),
            forall|k: int| n <= k < v@.len() ==> is_white(#[trigger] v@[k]),
        decreases n,
    {
        n -= 1;
    }
    proof {
        lemma_trim_back(v@, n as int);
        assert(v@.take(n as int) =~= v@.subrange(0, n as int));
    }
    s.substring_char(0, n)
}

/// A text with no white space at either end is its own trimming.
pub proof fn lemma_trim_identity(s: Seq<char>)
    requires
        s.len() > 0,
        !is_white(s[0]),
        !is_white(s.last()),
    ensures
        trim(s) == s,
{
}

// ---------------------------------------------------------------------
// Numbers
// ---------------------------------------------------------------------

/// Whether `c` is an ASCII decimal digit.
pub open spec fn is_digit(c: char) -> bool {
    '0' <= c <= '9'
}

/// The number whose decimal digits are `s`.
pub open spec fn digits_value(s: Seq<char>) -> nat
    decreases s.len(),
{
    if s.len() == 0 {
        0
    } else {
        digits_value(s.drop_last()) * 10 + (s.last() as nat - 48) as nat
    }
}

/// Whether `s` is one or more decimal digits.
pub open spec fn all_digits(s: Seq<char>) -> bool {
    s.len() > 0 && forall|i: int| 0 <= i < s.len() ==> is_digit(#[trigger] s[i])
}

/// `s` without one leading plus sign.
pub open spec fn strip_plus(s: Seq<char>) -> Seq<char> {
    if s.len() > 0 && s[0] == '+' {
        s.skip(1)
    } else {
        s
    }
}

/// An unsigned decimal number of at most `max`: an optional plus sign, then
/// digits only.
pub open spec fn parse_nat(s: Seq<char>, max: nat) -> Option<nat> {
    let d = strip_plus(s);
    if all_digits(d) && digits_value(d) <= max {
        Some(digits_value(d))
    } else {
        None
    }
}

proof fn lemma_digits_monotone(s: Seq<char>, i: int)
    requires
        0 <= i <= s.len(),
    ensures
        digits_value(s.take(i)) <= digits_value(s),
    decreases s.len(),
{
    if i == s.len() {
        assert(s.take(i) =~= s);
    } else {
        assert(s.drop_last().take(i) =~= s.take(i));
        lemma_digits_monotone(s.drop_last(), i);
    }
}

/// Parse an unsigned decimal number of at most `max`.
pub fn parse_uint(s: &str, max: u64) -> (r: Option<u64>)
    ensures
        match r {
            Some(n) => parse_nat(s@, max as nat) == Some(n as nat),
            None => parse_nat(s@, max as nat) is None,
        },
{
    let v = chars_of(s);
    let start: usize = if v.len() > 0 && v[0] == '+' { 1 } else { 0 };
    let ghost d = strip_plus(s@);
    proof {
        assert(d =~= v@.skip(start as int));
    }
    if start == v.len() {
        return None;
    }
    let mut n: u64 = 0;
    let mut i: usize = start;
    while i < v.len()
        invariant
            start <= i <= v@.len(),
            d =~= v@.skip(start as int),
            d == strip_plus(s@),
            n == digits_value(d.take(i - start)),
            n <= max,
            forall|k: int| 0 <= k < i - start ==> is_digit(#[trigger] d[k]),
        decreases v.len() - i,
    {
        let c = v[i];
        assert(d[i - start] == c);
        if !('0' <= c && c <= '9') {
            assert(!is_digit(d[i - start]));
            return None;
        }
        let digit: u64 = (c as u8 - 48) as u64;
        assert(d.take(i - start + 1).drop_last() =~= d.take(i - start));
        proof {
            lemma_digits_monotone(d, i - start + 1);
        }
        let wide: u128 = n as u128 * 10 + digit as u128;
        if wide > max as u128 {
            return None;
        }
        n = wide as u64;
        i += 1;
    }
    proof {
        assert(d.take(i - start) =~= d);
    }
    Some(n)
}

/// An unsigned decimal number of at most `max`: digits only.
pub open spec fn plain_nat(s: Seq<char>, max: nat) -> Option<nat> {
    if all_digits(s) && digits_value(s) <= max {
        Some(digits_value(s))
    } else {
        None
    }
}

/// Parse an unsigned decimal number of at most `max` that has no sign.
pub fn plain_uint(s: &str, max: u64) -> (r: Option<u64>)
    ensures
        match r {
            Some(n) => plain_nat(s@, max as nat) == Some(n as nat),
            None => plain_nat(s@, max as nat) is None,
        },
{
    if s.unicode_len() > 0 && s.get_char(0) == '+' {
        assert(!is_digit(s@[0]));
        return None;
    }
    parse_uint(s, max)
}

// ---------------------------------------------------------------------
// Escapes
// ---------------------------------------------------------------------

/// Lower-case hexadecimal rendering, no leading zeros.
pub open spec fn hex_lower(n: nat) -> Seq<char>
    decreases n,
{
    if n < 16 {
        seq![lower_char(hex_digit(n))]
    } else {
        hex_lower(n / 16).push(lower_char(hex_digit(n % 16)))
    }
}

/// One character as source code spells it: printable ASCII as it stands,
/// quotes and backslash escaped, everything else by its code.
pub open spec fn escape_char(c: char) -> Seq<char> {
    if c == '\t' {
        seq!['\\', 't']
    } else if c == '\r' {
        seq!['\\', 'r']
    } else if c == '\n' {
        seq!['\\', 'n']
    } else if c == '\'' || c == '"' || c == '\\' {
        seq!['\\', c]
    } else if 0x20 <= c as u32 <= 0x7e {
        seq![c]
    } else {
        seq!['\\', 'u', '{'] + hex_lower(c as u32 as nat) + seq!['}']
    }
}

/// Every character of `s` as source code spells it.
pub open spec fn escape(s: Seq<char>) -> Seq<char>
    decreases s.len(),
{
    if s.len() == 0 {
        Seq::empty()
    } else {
        escape(s.drop_last()) + escape_char(s.last())
    }
}

fn push_hex_lower(out: &mut String, n: u32)
    ensures
        final(out)@ == old(out)@ + hex_lower(n as nat),
    decreases n,
{
    let ghost start = out@;
    if n >= 16 {
        push_hex_lower(out, n / 16);
    }
    out.push(lower_char_exec(hex_digit_char((n % 16) as u8)));
    proof {
        assert(out@ =~= start + hex_lower(n as nat));
    }
}

/// Append every character of `s` as source code spells it.
pub fn push_escaped(out: &mut String, s: &str)
    ensures
        final(out)@ == old(out)@ + escape(s@),
{
    let ghost start = out@;
    let v = chars_of(s);
    let mut i: usize = 0;
    assert(v@.take(0) =~= Seq::<char>::empty());
    while i < v.len()
        invariant
            v@ == s@,
            i <= v@.len(),
            out@ =~= start + escape(v@.take(i as int)),
        decreases v.len() - i,
    {
        let c = v[i];
        let ghost before = out@;
        if c == '\t' {
            out.push('\\');
            out.push('t');
        } else if c == '\r' {
            out.push('\\');
            out.push('r');
        } else if c == '\n' {
            out.push('\\');
            out.push('n');
        } else if c == '\'' || c == '"' || c == '\\' {
            out.push('\\');
            out.push(c);
        } else if 0x20 <= c as u32 && c as u32 <= 0x7e {
            out.push(c);
        } else {
            out.push('\\');
            out.push('u');
            out.push('{');
            push_hex_lower(out, c as u32);
            out.push('}');
        }
        proof {
            assert(out@ =~= before + escape_char(c));
            assert(v@.take(i + 1).drop_last() =~= v@.take(i as int));
            assert(v@.take(i + 1).last() == c);
        }
        i += 1;
    }
    proof {
        assert(v@.take(i as int) =~= s@);
    }
}

// ---------------------------------------------------------------------
// Lists and pieces
// ---------------------------------------------------------------------

/// The texts of a list of strings.
pub open spec fn texts(v: Seq<String>) -> Seq<Seq<char>> {
    Seq::new(v.len(), |i: int| v[i]@)
}

/// Append a line to a list of strings.
pub fn push_line(log: &mut Vec<String>, line: String)
    ensures
        texts(final(log)@) == texts(old(log)@).push(line@),
{
    log.push(line);
    assert(texts(log@) =~= texts(old(log)@).push(line@));
}

/// Index of the first `c` in `s`, or the length of `s`.
pub open spec fn find_char(s: Seq<char>, c: char) -> nat
    decreases s.len(),
{
    if s.len() == 0 || s[0] == c {
        0
    } else {
        1 + find_char(s.skip(1), c)
    }
}

proof fn lemma_find_char(s: Seq<char>, c: char, i: int)
    requires
        0 <= i <= s.len(),
        forall|k: int| 0 <= k < i ==> (#[trigger] s[k]) != c,
        i == s.len() || s[i] == c,
    ensures
        find_char(s, c) == i,
    decreases i,
{
    if i > 0 {
        let t = s.skip(1);
        assert forall|k: int| 0 <= k < i - 1 implies (#[trigger] t[k]) != c by {
            assert(t[k] == s[k + 1]);
        }
        if i < s.len() {
            assert(t[i - 1] == s[i]);
        }
        lemma_find_char(t, c, i - 1);
    }
}

/// Index of the first `c` in `v[from..]`, or the length of `v`.
pub fn find_from(v: &Vec<char>, from: usize, c: char) -> (r: usize)
    requires
        from <= v@.len(),
    ensures
        from <= r <= v@.len(),
        r - from == find_char(v@.skip(from as int), c),
{
    let ghost s = v@.skip(from as int);
    let mut i: usize = from;
    while i < v.len() && v[i] != c
        invariant
            from <= i <= v@.len(),
            s == v@.skip(from as int),
            forall|k: int| 0 <= k < i - from ==> (#[trigger] s[k]) != c,
        decreases v.len() - i,
    {
        assert(s[i - from] == v@[i as int]);
        i += 1;
    }
    proof {
        if i < v@.len() {
            assert(s[i - from] == v@[i as int]);
        }
        lemma_find_char(s, c, i - from);
    }
    i
}

/// The pieces of `s` between the occurrences of `c`.
pub open spec fn split(s: Seq<char>, c: char) -> Seq<Seq<char>>
    decreases s.len(),
{
    let n = find_char(s, c) as int;
    if n >= s.len() {
        seq![s]
    } else {
        seq![s.take(n)] + split(s.skip(n + 1), c)
    }
}

/// The pieces of `s` between the occurrences of `c`.
pub fn split_at(s: &str, c: char) -> (r: Vec<String>)
    ensures
        texts(r@) == split(s@, c),
{
    let v = chars_of(s);
    let mut r: Vec<String> = Vec::new();
    let mut from: usize = 0;
    assert(v@.skip(0) =~= s@);
    assert(texts(r@) =~= Seq::<Seq<char>>::empty());
    assert(texts(r@) + split(s@, c) =~= split(s@, c));
    loop
        invariant
            v@ == s@,
            from <= v@.len(),
            texts(r@) + split(v@.skip(from as int), c) == split(s@, c),
        decreases v.len() - from,
    {
        let end: usize = find_from(&v, from, c);
        let ghost rest = v@.skip(from as int);
        let ghost before = texts(r@);
        let piece = string_of(&v, from, end);
        assert(piece@ =~= rest.take(end - from));
        push_line(&mut r, piece);
        if end == v.len() {
            proof {
                assert(rest.take(end - from) =~= rest);
                assert(texts(r@) =~= before + split(rest, c));
            }
            return r;
        }
        proof {
            assert(rest.skip(end - from + 1) =~= v@.skip(end + 1));
            assert(texts(r@) + split(v@.skip(end + 1), c) =~= before + split(rest, c));
        }
        from = end + 1;
    }
}

} // verus!
