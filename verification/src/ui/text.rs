//! The one matching rule behind every filter box.
use vstd::prelude::*;
use vstd::utf8::encode_utf8;

verus! {

/// ASCII lower-casing of one byte.
pub open spec fn lower_byte(b: u8) -> u8 {
    if 65 <= b <= 90 {
        (b + 32) as u8
    } else {
        b
    }
}

/// ASCII lower-casing of bytes.
pub open spec fn lower_bytes(s: Seq<u8>) -> Seq<u8> {
    Seq::new(s.len(), |i: int| lower_byte(s[i]))
}

/// Whether `n` occurs in `h` at byte `i`, up to ASCII case.
pub open spec fn occurs_at(h: Seq<u8>, n: Seq<u8>, i: int) -> bool {
    0 <= i && i + n.len() <= h.len() && forall|j: int|
        0 <= j < n.len() ==> lower_byte(h[i + j]) == lower_byte(#[trigger] n[j])
}

/// Whether the needle's bytes occur in the haystack's, up to ASCII case.
pub open spec fn contains_ci(haystack: Seq<char>, needle: Seq<char>) -> bool {
    exists|i: int| #[trigger] occurs_at(encode_utf8(haystack), encode_utf8(needle), i)
}

fn lower_byte_exec(b: u8) -> (r: u8)
    ensures
        r == lower_byte(b),
{
    if 65 <= b && b <= 90 {
        b + 32
    } else {
        b
    }
}

/// The text's bytes, lower-cased.
pub fn lower_bytes_of(s: &str) -> (r: Vec<u8>)
    ensures
        r@ == lower_bytes(encode_utf8(s@)),
{
    let b = s.as_bytes();
    let mut r: Vec<u8> = Vec::new();
    let mut i: usize = 0;
    while i < b.len()
        invariant
            b@ == encode_utf8(s@),
            i <= b@.len(),
            r@ =~= lower_bytes(b@).take(i as int),
        decreases b.len() - i,
    {
        r.push(lower_byte_exec(b[i]));
        i += 1;
    }
    assert(lower_bytes(b@).take(i as int) =~= lower_bytes(b@));
    r
}

fn matches_at(h: &Vec<u8>, n: &Vec<u8>, i: usize) -> (r: bool)
    requires
        i + n@.len() <= h@.len(),
    ensures
        r == (forall|j: int| 0 <= j < n@.len() ==> h@[i + j] == #[trigger] n@[j]),
{
    let mut j: usize = 0;
    let room: usize = h.len();
    while j < n.len()
        invariant
            j <= n@.len(),
            i + n@.len() <= h@.len(),
            room == h@.len(),
            forall|k: int| 0 <= k < j ==> h@[i + k] == #[trigger] n@[k],
        decreases n.len() - j,
    {
        if h[i + j] != n[j] {
            return false;
        }
        j += 1;
    }
    true
}

/// ASCII-case-insensitive substring test. Byte windows are exact for any
/// needle; only ASCII letters fold case. The empty needle matches everything,
/// so a cleared filter box shows the full list.
pub fn contains_ignore_ascii_case(haystack: &str, needle: &str) -> (r: bool)
    ensures
        r == contains_ci(haystack@, needle@),
{
    let h = lower_bytes_of(haystack);
    let n = lower_bytes_of(needle);
    let ghost hb = encode_utf8(haystack@);
    let ghost nb = encode_utf8(needle@);
    if n.len() > h.len() {
        assert forall|i: int| !(#[trigger] occurs_at(hb, nb, i)) by {}
        return false;
    }
    let mut i: usize = 0;
    let last: usize = h.len() - n.len();
    while i <= last
        invariant
            h@ == lower_bytes(hb),
            n@ == lower_bytes(nb),
            hb == encode_utf8(haystack@),
            nb == encode_utf8(needle@),
            last == h@.len() - n@.len(),
            i <= last + 1,
            forall|k: int| 0 <= k < i ==> !(#[trigger] occurs_at(hb, nb, k)),
        decreases last + 1 - i,
    {
        if matches_at(&h, &n, i) {
            assert forall|j: int| 0 <= j < nb.len() implies lower_byte(hb[i + j]) == lower_byte(
                #[trigger] nb[j],
            ) by {
                assert(h@[i + j] == n@[j]);
            }
            assert(occurs_at(hb, nb, i as int));
            return true;
        }
        proof {
            if occurs_at(hb, nb, i as int) {
                assert forall|j: int| 0 <= j < n@.len() implies h@[i + j] == #[trigger] n@[j] by {
                    assert(lower_byte(hb[i + j]) == lower_byte(nb[j]));
                }
            }
        }
        if i == last {
            proof {
                assert forall|k: int| !(#[trigger] occurs_at(hb, nb, k)) by {
                    if 0 <= k && k + nb.len() <= hb.len() && k < i {
                        assert(!occurs_at(hb, nb, k));
                    }
                }
            }
            return false;
        }
        i += 1;
    }
    false
}

/// The empty needle matches everything.
pub proof fn law_empty_needle_matches_everything(haystack: Seq<char>)
    ensures
        contains_ci(haystack, Seq::empty()),
{
    let hb = encode_utf8(haystack);
    let nb = encode_utf8(Seq::<char>::empty());
    assert(nb.len() == 0);
    assert(occurs_at(hb, nb, 0));
}

/// A text matches itself.
pub proof fn law_text_matches_itself(s: Seq<char>)
    ensures
        contains_ci(s, s),
{
    assert(occurs_at(encode_utf8(s), encode_utf8(s), 0));
}

/// The numbers below `n` that satisfy `f`, ascending.
pub open spec fn indices(n: nat, f: spec_fn(int) -> bool) -> Seq<usize>
    decreases n,
{
    if n == 0 {
        Seq::empty()
    } else if f(n - 1) {
        indices((n - 1) as nat, f).push((n - 1) as usize)
    } else {
        indices((n - 1) as nat, f)
    }
}

pub proof fn lemma_indices(n: nat, f: spec_fn(int) -> bool)
    requires
        n <= usize::MAX,
    ensures
        forall|i: int|
            0 <= i < indices(n, f).len() ==> 0 <= (#[trigger] indices(n, f)[i]) < n && f(
                indices(n, f)[i] as int,
            ),
        forall|i: int, j: int|
            0 <= i < j < indices(n, f).len() ==> (#[trigger] indices(n, f)[i]) < (
            #[trigger] indices(n, f)[j]),
        forall|k: int| 0 <= k < n && f(k) ==> indices(n, f).contains(#[trigger] (k as usize)),
    decreases n,
{
    if n > 0 {
        lemma_indices((n - 1) as nat, f);
        let before = indices((n - 1) as nat, f);
        assert forall|k: int| 0 <= k < n && f(k) implies indices(n, f).contains(
            #[trigger] (k as usize),
        ) by {
            if k == n - 1 {
                assert(indices(n, f)[before.len() as int] == k as usize);
            } else {
                assert(before.contains(k as usize));
                let i = before.index_of(k as usize);
                assert(indices(n, f)[i] == k as usize);
            }
        }
    }
}

} // verus!
