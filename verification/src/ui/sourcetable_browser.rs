//! The sourcetable browser's view logic: filtering, sorting and selection.
use std::cmp::Ordering;

use vstd::prelude::*;
use vstd::utf8::encode_utf8;

use crate::order::{lemma_lex_antisymmetric, lemma_lex_transitive, lex, lex_order};
use crate::sourcetable::{CasRecord, NetRecord, SourceTable, StrRecord};
use crate::text::{dec, dec_string, push_dec, same_text, texts, trim, trimmed};
use crate::ui::text::{
    contains_ci, contains_ignore_ascii_case, indices, lemma_indices, lower_bytes, lower_bytes_of,
};

verus! {

/// Which record class the table area shows.
#[derive(Debug, Clone, Copy, PartialEq, Eq, Structural)]
pub enum Tab {
    Str,
    Cas,
    Net,
    /// Only offered while the table has unparsed lines.
    Unparsed,
}

/// Sortable columns. Everything else keeps the caster's order.
#[derive(Debug, Clone, Copy, PartialEq, Eq, Structural)]
pub enum SortKey {
    Mount,
    Format,
    Country,
    Bitrate,
}

// ---------------------------------------------------------------------
// Order
// ---------------------------------------------------------------------

/// Case-insensitive three-way comparison.
pub open spec fn ci_order(a: Seq<char>, b: Seq<char>) -> int {
    lex(lower_bytes(encode_utf8(a)), lower_bytes(encode_utf8(b)))
}

fn ci_order_exec(a: &str, b: &str) -> (r: i8)
    ensures
        r == ci_order(a@, b@),
{
    lex_order(lower_bytes_of(a).as_slice(), lower_bytes_of(b).as_slice())
}

/// ASCII case-insensitive ordering.
pub fn cmp_ci(a: &str, b: &str) -> (r: Ordering)
    ensures
        r is Less <==> ci_order(a@, b@) < 0,
        r is Equal <==> ci_order(a@, b@) == 0,
        r is Greater <==> ci_order(a@, b@) > 0,
{
    let o: i8 = ci_order_exec(a, b);
    if o < 0 {
        Ordering::Less
    } else if o == 0 {
        Ordering::Equal
    } else {
        Ordering::Greater
    }
}

/// The first comparison, or the second one where the first finds no
/// difference.
pub open spec fn then_by(first: int, second: int) -> int {
    if first != 0 {
        first
    } else {
        second
    }
}

/// Three-way comparison by a column, ties by mountpoint.
pub open spec fn key_order(key: SortKey, a: StrRecord, b: StrRecord) -> int {
    let mounts = ci_order(a.mountpoint@, b.mountpoint@);
    match key {
        SortKey::Mount => mounts,
        SortKey::Format => then_by(ci_order(a.format@, b.format@), mounts),
        SortKey::Country => then_by(ci_order(a.country@, b.country@), mounts),
        SortKey::Bitrate => then_by(
            if a.bitrate < b.bitrate {
                -1
            } else if a.bitrate > b.bitrate {
                1
            } else {
                0
            },
            mounts,
        ),
    }
}

/// The comparison of a sort: by column, in the chosen direction.
pub open spec fn sort_order(sort: (SortKey, bool), a: StrRecord, b: StrRecord) -> int {
    if sort.1 {
        key_order(sort.0, a, b)
    } else {
        -key_order(sort.0, a, b)
    }
}

/// Whether row `a` is shown above row `b`: by the sort, and in the caster's
/// order where the sort finds no difference or there is none.
pub open spec fn above(strs: Seq<StrRecord>, sort: Option<(SortKey, bool)>, a: int, b: int) -> bool {
    match sort {
        Some(s) => {
            let o = sort_order(s, strs[a], strs[b]);
            o < 0 || (o == 0 && a < b)
        },
        None => a < b,
    }
}

proof fn lemma_ci_laws(a: Seq<char>, b: Seq<char>, c: Seq<char>)
    ensures
        ci_order(a, b) == -ci_order(b, a),
        -1 <= ci_order(a, b) <= 1,
        ci_order(a, b) <= 0 && ci_order(b, c) <= 0 ==> ci_order(a, c) <= 0,
        ci_order(a, b) <= 0 && ci_order(b, c) <= 0 && ci_order(a, c) == 0 ==> ci_order(a, b) == 0
            && ci_order(b, c) == 0,
{
    let x = lower_bytes(encode_utf8(a));
    let y = lower_bytes(encode_utf8(b));
    let z = lower_bytes(encode_utf8(c));
    lemma_lex_antisymmetric(x, y);
    if lex(x, y) <= 0 && lex(y, z) <= 0 {
        lemma_lex_transitive(x, y, z);
    }
}

proof fn lemma_key_order(key: SortKey, a: StrRecord, b: StrRecord, c: StrRecord)
    ensures
        key_order(key, a, b) == -key_order(key, b, a),
        key_order(key, a, b) <= 0 && key_order(key, b, c) <= 0 ==> key_order(key, a, c) <= 0,
        key_order(key, a, b) <= 0 && key_order(key, b, c) <= 0 && key_order(key, a, c) == 0
            ==> key_order(key, a, b) == 0 && key_order(key, b, c) == 0,
{
    lemma_ci_laws(a.mountpoint@, b.mountpoint@, c.mountpoint@);
    lemma_ci_laws(b.mountpoint@, c.mountpoint@, a.mountpoint@);
    lemma_ci_laws(a.format@, b.format@, c.format@);
    lemma_ci_laws(b.format@, c.format@, a.format@);
    lemma_ci_laws(c.format@, a.format@, b.format@);
    lemma_ci_laws(a.country@, b.country@, c.country@);
    lemma_ci_laws(b.country@, c.country@, a.country@);
    lemma_ci_laws(c.country@, a.country@, b.country@);
}

/// The order in which rows are shown is a strict total order.
pub proof fn law_row_order_is_total(
    strs: Seq<StrRecord>,
    sort: Option<(SortKey, bool)>,
    a: int,
    b: int,
    c: int,
)
    ensures
        !above(strs, sort, a, a),
        a != b ==> (above(strs, sort, a, b) <==> !above(strs, sort, b, a)),
        above(strs, sort, a, b) && above(strs, sort, b, c) ==> above(strs, sort, a, c),
{
    if let Some(s) = sort {
        lemma_key_order(s.0, strs[a], strs[b], strs[c]);
        lemma_key_order(s.0, strs[c], strs[b], strs[a]);
        lemma_key_order(s.0, strs[b], strs[a], strs[c]);
        lemma_key_order(s.0, strs[a], strs[c], strs[b]);
        lemma_key_order(s.0, strs[a], strs[a], strs[a]);
    }
}

fn key_order_exec(key: SortKey, a: &StrRecord, b: &StrRecord) -> (r: i8)
    ensures
        r == key_order(key, *a, *b),
        -1 <= r <= 1,
{
    proof {
        lemma_ci_laws(a.mountpoint@, b.mountpoint@, b.mountpoint@);
        lemma_ci_laws(a.format@, b.format@, b.format@);
        lemma_ci_laws(a.country@, b.country@, b.country@);
    }
    let first: i8 = match key {
        SortKey::Mount => 0,
        SortKey::Format => ci_order_exec(a.format.as_str(), b.format.as_str()),
        SortKey::Country => ci_order_exec(a.country.as_str(), b.country.as_str()),
        SortKey::Bitrate => if a.bitrate < b.bitrate {
            -1
        } else if a.bitrate > b.bitrate {
            1
        } else {
            0
        },
    };
    if first != 0 {
        first
    } else {
        ci_order_exec(a.mountpoint.as_str(), b.mountpoint.as_str())
    }
}

// ---------------------------------------------------------------------
// Filters
// ---------------------------------------------------------------------

/// Whether a stream matches the filter: by mountpoint, identifier, format or
/// country.
pub open spec fn stream_matches(s: StrRecord, filter: Seq<char>) -> bool {
    contains_ci(s.mountpoint@, filter) || contains_ci(s.identifier@, filter) || contains_ci(
        s.format@,
        filter,
    ) || contains_ci(s.country@, filter)
}

pub fn str_matches(s: &StrRecord, filter: &str) -> (r: bool)
    ensures
        r == stream_matches(*s, filter@),
{
    contains_ignore_ascii_case(s.mountpoint.as_str(), filter) || contains_ignore_ascii_case(
        s.identifier.as_str(),
        filter,
    ) || contains_ignore_ascii_case(s.format.as_str(), filter) || contains_ignore_ascii_case(
        s.country.as_str(),
        filter,
    )
}

/// Whether a caster matches the filter.
pub open spec fn caster_matches(c: CasRecord, filter: Seq<char>) -> bool {
    contains_ci(c.host@, filter) || contains_ci(c.identifier@, filter) || contains_ci(
        c.operator@,
        filter,
    ) || contains_ci(c.country@, filter)
}

pub fn cas_matches(c: &CasRecord, filter: &str) -> (r: bool)
    ensures
        r == caster_matches(*c, filter@),
{
    contains_ignore_ascii_case(c.host.as_str(), filter) || contains_ignore_ascii_case(
        c.identifier.as_str(),
        filter,
    ) || contains_ignore_ascii_case(c.operator.as_str(), filter) || contains_ignore_ascii_case(
        c.country.as_str(),
        filter,
    )
}

/// Whether a network matches the filter.
pub open spec fn network_matches(n: NetRecord, filter: Seq<char>) -> bool {
    contains_ci(n.identifier@, filter) || contains_ci(n.operator@, filter)
}

pub fn net_matches(n: &NetRecord, filter: &str) -> (r: bool)
    ensures
        r == network_matches(*n, filter@),
{
    contains_ignore_ascii_case(n.identifier.as_str(), filter) || contains_ignore_ascii_case(
        n.operator.as_str(),
        filter,
    )
}

/// Whether `rows` are exactly the matching rows below `n`, shown in order.
pub open spec fn shows(
    strs: Seq<StrRecord>,
    filter: Seq<char>,
    sort: Option<(SortKey, bool)>,
    n: int,
    rows: Seq<usize>,
) -> bool {
    &&& forall|i: int|
        0 <= i < rows.len() ==> 0 <= (#[trigger] rows[i]) < n && stream_matches(
            strs[rows[i] as int],
            filter,
        )
    &&& forall|k: int|
        0 <= k < n && stream_matches(strs[k], filter) ==> rows.contains(#[trigger] (k as usize))
    &&& forall|i: int, j: int|
        0 <= i < j < rows.len() ==> above(
            strs,
            sort,
            #[trigger] rows[i] as int,
            #[trigger] rows[j] as int,
        )
}

fn insert_row(
    strs: &Vec<StrRecord>,
    rows: &mut Vec<usize>,
    sort: Option<(SortKey, bool)>,
    k: usize,
)
    requires
        k < strs@.len(),
        forall|i: int| 0 <= i < old(rows)@.len() ==> (#[trigger] old(rows)@[i]) < k,
        forall|i: int, j: int|
            0 <= i < j < old(rows)@.len() ==> above(
                strs@,
                sort,
                #[trigger] old(rows)@[i] as int,
                #[trigger] old(rows)@[j] as int,
            ),
    ensures
        exists|p: int|
            0 <= p <= old(rows)@.len() && final(rows)@ == #[trigger] old(rows)@.insert(p, k),
        forall|i: int, j: int|
            0 <= i < j < final(rows)@.len() ==> above(
                strs@,
                sort,
                #[trigger] final(rows)@[i] as int,
                #[trigger] final(rows)@[j] as int,
            ),
{
    let ghost before = rows@;
    let mut p: usize = 0;
    match sort {
        None => {
            p = rows.len();
        },
        Some(s) => {
            while p < rows.len()
                invariant
                    p <= rows@.len(),
                    rows@ == before,
                    sort == Some(s),
                    k < strs@.len(),
                    forall|i: int| 0 <= i < before.len() ==> (#[trigger] before[i]) < k,
                    forall|i: int|
                        0 <= i < p ==> above(strs@, sort, #[trigger] before[i] as int, k as int),
                ensures
                    p <= rows@.len(),
                    rows@ == before,
                    forall|i: int|
                        0 <= i < p ==> above(strs@, sort, #[trigger] before[i] as int, k as int),
                    p < before.len() ==> above(strs@, sort, k as int, before[p as int] as int),
                decreases rows.len() - p,
            {
                let r: usize = rows[p];
                assert(before[p as int] < k);
                let o: i8 = key_order_exec(s.0, &strs[r], &strs[k]);
                let shown_above = if s.1 {
                    o <= 0
                } else {
                    o >= 0
                };
                if !shown_above {
                    proof {
                        law_row_order_is_total(strs@, sort, r as int, k as int, k as int);
                    }
                    break;
                }
                p += 1;
            }
        },
    }
    rows.insert(p, k);
    proof {
        let after = rows@;
        assert(after == before.insert(p as int, k));
        assert forall|i: int, j: int| 0 <= i < j < after.len() implies above(
            strs@,
            sort,
            #[trigger] after[i] as int,
            #[trigger] after[j] as int,
        ) by {
            if j < p {
                assert(after[i] == before[i] && after[j] == before[j]);
            } else if j == p {
                assert(after[i] == before[i]);
            } else if i < p {
                assert(after[i] == before[i] && after[j] == before[j - 1]);
            } else if i == p {
                assert(after[j] == before[j - 1]);
                if p < j - 1 {
                    law_row_order_is_total(
                        strs@,
                        sort,
                        k as int,
                        before[p as int] as int,
                        before[j - 1] as int,
                    );
                }
            } else {
                assert(after[i] == before[i - 1] && after[j] == before[j - 1]);
            }
        }
    }
}

/// The rows to show: the matching streams, sorted by the chosen column with
/// ties by mountpoint, or in the caster's order.
pub fn str_rows(strs: &Vec<StrRecord>, filter: &str, sort: Option<(SortKey, bool)>) -> (r: Vec<
    usize,
>)
    ensures
        shows(strs@, filter@, sort, strs@.len() as int, r@),
{
    let mut rows: Vec<usize> = Vec::new();
    let mut k: usize = 0;
    while k < strs.len()
        invariant
            k <= strs@.len(),
            shows(strs@, filter@, sort, k as int, rows@),
        decreases strs.len() - k,
    {
        let ghost before = rows@;
        if str_matches(&strs[k], filter) {
            insert_row(strs, &mut rows, sort, k);
            proof {
                let p = choose|p: int|
                    0 <= p <= before.len() && rows@ == #[trigger] before.insert(p, k);
                assert(rows@[p] == k);
                assert forall|i: int| 0 <= i < rows@.len() implies 0 <= (#[trigger] rows@[i]) < k
                    + 1 && stream_matches(strs@[rows@[i] as int], filter@) by {
                    if i < p {
                        assert(rows@[i] == before[i]);
                    } else if i > p {
                        assert(rows@[i] == before[i - 1]);
                    }
                }
                assert forall|m: int|
                    0 <= m < k + 1 && stream_matches(strs@[m], filter@) implies rows@.contains(
                    #[trigger] (m as usize),
                ) by {
                    if m < k {
                        assert(before.contains(m as usize));
                        let q = choose|q: int| 0 <= q < before.len() && before[q] == m as usize;
                        if q < p {
                            assert(rows@[q] == m as usize);
                        } else {
                            assert(rows@[q + 1] == m as usize);
                        }
                    }
                }
            }
        }
        k += 1;
    }
    rows
}

/// The rows that are shown are determined: there is only one sequence of the
/// matching rows in the order of the sort.
pub proof fn law_rows_are_determined(
    strs: Seq<StrRecord>,
    filter: Seq<char>,
    sort: Option<(SortKey, bool)>,
    a: Seq<usize>,
    b: Seq<usize>,
)
    requires
        strs.len() <= usize::MAX,
        shows(strs, filter, sort, strs.len() as int, a),
        shows(strs, filter, sort, strs.len() as int, b),
    ensures
        a == b,
{
    assert forall|x: usize| a.contains(x) <==> b.contains(x) by {
        if a.contains(x) {
            let i = choose|i: int| 0 <= i < a.len() && a[i] == x;
            assert(0 <= a[i] < strs.len() && stream_matches(strs[a[i] as int], filter));
            assert(b.contains((x as int) as usize));
        }
        if b.contains(x) {
            let i = choose|i: int| 0 <= i < b.len() && b[i] == x;
            assert(0 <= b[i] < strs.len() && stream_matches(strs[b[i] as int], filter));
            assert(a.contains((x as int) as usize));
        }
    }
    lemma_same_rows(strs, sort, a, b);
}

proof fn lemma_same_rows(
    strs: Seq<StrRecord>,
    sort: Option<(SortKey, bool)>,
    a: Seq<usize>,
    b: Seq<usize>,
)
    requires
        forall|x: usize| a.contains(x) <==> b.contains(x),
        forall|i: int, j: int|
            0 <= i < j < a.len() ==> above(strs, sort, #[trigger] a[i] as int, #[trigger] a[j] as int),
        forall|i: int, j: int|
            0 <= i < j < b.len() ==> above(strs, sort, #[trigger] b[i] as int, #[trigger] b[j] as int),
    ensures
        a == b,
    decreases a.len(),
{
    if a.len() == 0 {
        if b.len() > 0 {
            assert(b.contains(b[0]));
            assert(a.contains(b[0]));
        }
        assert(a =~= b);
    } else {
        assert(a.contains(a[0]));
        assert(b.contains(a[0]));
        assert(b.contains(b[0]));
        assert(a.contains(b[0]));
        let i = choose|i: int| 0 <= i < b.len() && b[i] == a[0];
        let j = choose|j: int| 0 <= j < a.len() && a[j] == b[0];
        if i > 0 && j > 0 {
            law_row_order_is_total(strs, sort, a[0] as int, b[0] as int, 0);
        }
        assert(a[0] == b[0]);
        let a2 = a.skip(1);
        let b2 = b.skip(1);
        assert forall|x: usize| a2.contains(x) implies b2.contains(x) by {
            let k = choose|k: int| 0 <= k < a2.len() && a2[k] == x;
            assert(a[k + 1] == x);
            assert(b.contains(x));
            let m = choose|m: int| 0 <= m < b.len() && b[m] == x;
            if m == 0 {
                assert(above(strs, sort, a[0] as int, a[k + 1] as int));
                law_row_order_is_total(strs, sort, x as int, x as int, x as int);
            }
            assert(b2[m - 1] == x);
        }
        assert forall|x: usize| b2.contains(x) implies a2.contains(x) by {
            let k = choose|k: int| 0 <= k < b2.len() && b2[k] == x;
            assert(b[k + 1] == x);
            assert(a.contains(x));
            let m = choose|m: int| 0 <= m < a.len() && a[m] == x;
            if m == 0 {
                assert(above(strs, sort, b[0] as int, b[k + 1] as int));
                law_row_order_is_total(strs, sort, x as int, x as int, x as int);
            }
            assert(a2[m - 1] == x);
        }
        lemma_same_rows(strs, sort, a2, b2);
        assert(a =~= seq![a[0]] + a2);
        assert(b =~= seq![b[0]] + b2);
    }
}

// ---------------------------------------------------------------------
// Row lists and counts
// ---------------------------------------------------------------------

/// The caster rows to show.
pub fn cas_rows(casters: &Vec<CasRecord>, filter: &str) -> (r: Vec<usize>)
    ensures
        r@ == indices(casters@.len(), |i: int| caster_matches(casters@[i], filter@)),
{
    let ghost f = |i: int| caster_matches(casters@[i], filter@);
    let mut r: Vec<usize> = Vec::new();
    let mut i: usize = 0;
    while i < casters.len()
        invariant
            i <= casters@.len(),
            f == (|i: int| caster_matches(casters@[i], filter@)),
            r@ == indices(i as nat, f),
        decreases casters.len() - i,
    {
        if cas_matches(&casters[i], filter) {
            r.push(i);
        }
        i += 1;
    }
    r
}

/// The network rows to show.
pub fn net_rows(networks: &Vec<NetRecord>, filter: &str) -> (r: Vec<usize>)
    ensures
        r@ == indices(networks@.len(), |i: int| network_matches(networks@[i], filter@)),
{
    let ghost f = |i: int| network_matches(networks@[i], filter@);
    let mut r: Vec<usize> = Vec::new();
    let mut i: usize = 0;
    while i < networks.len()
        invariant
            i <= networks@.len(),
            f == (|i: int| network_matches(networks@[i], filter@)),
            r@ == indices(i as nat, f),
        decreases networks.len() - i,
    {
        if net_matches(&networks[i], filter) {
            r.push(i);
        }
        i += 1;
    }
    r
}

/// The unparsed lines to show.
pub fn unparsed_rows(lines: &Vec<String>, filter: &str) -> (r: Vec<usize>)
    ensures
        r@ == indices(lines@.len(), |i: int| contains_ci(lines@[i]@, filter@)),
{
    let ghost f = |i: int| contains_ci(lines@[i]@, filter@);
    let mut r: Vec<usize> = Vec::new();
    let mut i: usize = 0;
    while i < lines.len()
        invariant
            i <= lines@.len(),
            f == (|i: int| contains_ci(lines@[i]@, filter@)),
            r@ == indices(i as nat, f),
        decreases lines.len() - i,
    {
        if contains_ignore_ascii_case(lines[i].as_str(), filter) {
            r.push(i);
        }
        i += 1;
    }
    r
}

/// The footer's counts: records per class, and how many the filter shows.
pub open spec fn footer_text(
    table: SourceTable,
    filter: Seq<char>,
    shown: nat,
    total: nat,
) -> Seq<char> {
    let counts = dec(table.strs@.len()) + " streams, "@ + dec(table.casters@.len()) + " casters, "@
        + dec(table.networks@.len()) + " networks"@;
    let with_unparsed = if table.unparsed@.len() > 0 {
        counts + ", "@ + dec(table.unparsed@.len()) + " unparsed lines"@
    } else {
        counts
    };
    if filter.len() > 0 {
        with_unparsed + " - filter shows "@ + dec(shown) + " of "@ + dec(total)
    } else {
        with_unparsed
    }
}

/// How many records a tab shows through a filter.
pub open spec fn shown_count(table: SourceTable, tab: Tab, filter: Seq<char>) -> nat {
    match tab {
        Tab::Str => indices(
            table.strs@.len(),
            |i: int| stream_matches(table.strs@[i], filter),
        ).len(),
        Tab::Cas => indices(
            table.casters@.len(),
            |i: int| caster_matches(table.casters@[i], filter),
        ).len(),
        Tab::Net => indices(
            table.networks@.len(),
            |i: int| network_matches(table.networks@[i], filter),
        ).len(),
        Tab::Unparsed => indices(
            table.unparsed@.len(),
            |i: int| contains_ci(table.unparsed@[i]@, filter),
        ).len(),
    }
}

/// How many records a tab has.
pub open spec fn total_count(table: SourceTable, tab: Tab) -> nat {
    match tab {
        Tab::Str => table.strs@.len(),
        Tab::Cas => table.casters@.len(),
        Tab::Net => table.networks@.len(),
        Tab::Unparsed => table.unparsed@.len(),
    }
}

/// Rows in the caster's order are the matching indices, ascending.
pub proof fn law_unsorted_rows_keep_caster_order(
    strs: Seq<StrRecord>,
    filter: Seq<char>,
    rows: Seq<usize>,
)
    requires
        strs.len() <= usize::MAX,
        shows(strs, filter, None, strs.len() as int, rows),
    ensures
        rows == indices(strs.len(), |i: int| stream_matches(strs[i], filter)),
{
    let f = |i: int| stream_matches(strs[i], filter);
    lemma_indices(strs.len(), f);
    let plain = indices(strs.len(), f);
    assert(shows(strs, filter, None, strs.len() as int, plain)) by {
        assert forall|k: int|
            0 <= k < strs.len() && stream_matches(strs[k], filter) implies plain.contains(
            #[trigger] (k as usize),
        ) by {
            assert(f(k));
        }
        assert forall|i: int| 0 <= i < plain.len() implies 0 <= (#[trigger] plain[i]) < strs.len()
            && stream_matches(strs[plain[i] as int], filter) by {
            assert(f(plain[i] as int));
        }
    }
    law_rows_are_determined(strs, filter, None, rows, plain);
}

/// How many records the tab shows through a filter.
fn count_shown(table: &SourceTable, tab: Tab, filter: &str) -> (r: usize)
    ensures
        r == shown_count(*table, tab, filter@),
{
    match tab {
        Tab::Str => {
            let rows = str_rows(&table.strs, filter, None);
            let n: usize = table.strs.len();
            proof {
                assert(n == table.strs@.len());
                law_unsorted_rows_keep_caster_order(table.strs@, filter@, rows@);
            }
            rows.len()
        },
        Tab::Cas => cas_rows(&table.casters, filter).len(),
        Tab::Net => net_rows(&table.networks, filter).len(),
        Tab::Unparsed => unparsed_rows(&table.unparsed, filter).len(),
    }
}

/// The footer's counts for a tab and the raw text of the filter box.
pub fn footer_counts(table: &SourceTable, tab: Tab, filter_box: &str) -> (r: String)
    ensures
        r@ == footer_text(
            *table,
            trim(filter_box@),
            shown_count(*table, tab, trim(filter_box@)),
            total_count(*table, tab),
        ),
{
    let filter = trimmed(filter_box);
    let mut out = dec_string(table.strs.len() as u64);
    out.append(" streams, ");
    push_dec(&mut out, table.casters.len() as u64);
    out.append(" casters, ");
    push_dec(&mut out, table.networks.len() as u64);
    out.append(" networks");
    if table.unparsed.len() > 0 {
        out.append(", ");
        push_dec(&mut out, table.unparsed.len() as u64);
        out.append(" unparsed lines");
    }
    if !filter.is_empty() {
        let shown: usize = count_shown(table, tab, filter);
        let total: usize = match tab {
            Tab::Str => table.strs.len(),
            Tab::Cas => table.casters.len(),
            Tab::Net => table.networks.len(),
            Tab::Unparsed => table.unparsed.len(),
        };
        out.append(" - filter shows ");
        push_dec(&mut out, shown as u64);
        out.append(" of ");
        push_dec(&mut out, total as u64);
    }
    out
}

// ---------------------------------------------------------------------
// View state
// ---------------------------------------------------------------------

/// What the browser remembers between frames.
#[derive(Debug)]
pub struct ViewState {
    pub tab: Tab,
    pub filter: String,
    /// Sort column and whether it ascends; none keeps the caster's order.
    pub sort: Option<(SortKey, bool)>,
    /// Selected stream, by its mountpoint.
    pub selected: Option<String>,
}

/// What a click asks for, applied once the frame is drawn.
#[derive(Debug)]
pub enum Pending {
    /// Fetch the sourcetable from the active profile's caster.
    Refresh,
    /// Fill the active profile's mountpoint field.
    UseMount(String),
}

impl Default for ViewState {
    fn default() -> (r: ViewState)
        ensures
            r.tab == Tab::Str,
            r.filter@ == Seq::<char>::empty(),
            r.sort is None,
            r.selected is None,
    {
        ViewState { tab: Tab::Str, filter: String::new(), sort: None, selected: None }
    }
}

/// Drop state that no longer matches a refreshed table: a tab that the table
/// does not offer falls back to the streams. The selection is a mountpoint,
/// resolved against the current table on every use.
pub fn sync_view(view: &mut ViewState, table: &SourceTable)
    ensures
        *final(view) == (ViewState {
            tab: if old(view).tab == Tab::Unparsed && table.unparsed@.len() == 0 {
                Tab::Str
            } else {
                old(view).tab
            },
            ..*old(view)
        }),
{
    if view.tab == Tab::Unparsed && table.unparsed.len() == 0 {
        view.tab = Tab::Str;
    }
}

/// The offered tabs and their labels.
pub fn tabs(table: &SourceTable) -> (r: Vec<(Tab, &'static str)>)
    ensures
        r@.len() == if table.unparsed@.len() == 0 {
            3int
        } else {
            4
        },
        r@[0].0 == Tab::Str && r@[0].1@ == "Streams (STR)"@,
        r@[1].0 == Tab::Cas && r@[1].1@ == "Casters (CAS)"@,
        r@[2].0 == Tab::Net && r@[2].1@ == "Networks (NET)"@,
        table.unparsed@.len() > 0 ==> r@[3].0 == Tab::Unparsed && r@[3].1@ == "Unparsed"@,
{
    let mut r: Vec<(Tab, &'static str)> = Vec::new();
    r.push((Tab::Str, "Streams (STR)"));
    r.push((Tab::Cas, "Casters (CAS)"));
    r.push((Tab::Net, "Networks (NET)"));
    if table.unparsed.len() > 0 {
        r.push((Tab::Unparsed, "Unparsed"));
    }
    r
}

/// What the toolbar shows.
#[derive(Debug)]
pub struct Toolbar {
    pub refresh_enabled: bool,
    pub refresh_hint: String,
    pub caption: String,
    pub clear_offered: bool,
}

/// `host:port`.
pub open spec fn address(host: Seq<char>, port: u16) -> Seq<char> {
    host + ":"@ + dec(port as nat)
}

/// The toolbar for a caster. The refresh hint explains what a click does, or
/// why there is none to make.
pub fn toolbar(view: &ViewState, host: &str, port: u16, busy: bool) -> (r: Toolbar)
    ensures
        r.refresh_enabled == (!busy && host@.len() > 0),
        r.refresh_hint@ == (if host@.len() == 0 {
            "Configure a caster host first"@
        } else if busy {
            "Busy - disconnect first"@
        } else {
            "Download the sourcetable from "@ + host@ + ":"@ + dec(port as nat)
        }),
        r.caption@ == (if host@.len() == 0 {
            "no caster configured"@
        } else {
            address(host@, port)
        }),
        r.clear_offered == (view.filter@.len() > 0),
{
    let known = !host.is_empty();
    let refresh_hint = if !known {
        "Configure a caster host first".to_owned()
    } else if busy {
        "Busy - disconnect first".to_owned()
    } else {
        let mut s = "Download the sourcetable from ".to_owned();
        s.append(host);
        s.append(":");
        push_dec(&mut s, port as u64);
        s
    };
    let caption = if known {
        let mut s = host.to_owned();
        s.append(":");
        push_dec(&mut s, port as u64);
        s
    } else {
        "no caster configured".to_owned()
    };
    Toolbar {
        refresh_enabled: !busy && known,
        refresh_hint,
        caption,
        clear_offered: !view.filter.as_str().is_empty(),
    }
}

/// A click on a sortable header: ascending, then descending, then off.
pub open spec fn cycled(sort: Option<(SortKey, bool)>, key: SortKey) -> Option<(SortKey, bool)> {
    if sort == Some((key, true)) {
        Some((key, false))
    } else if sort == Some((key, false)) {
        None
    } else {
        Some((key, true))
    }
}

/// The direction marker behind a sortable header's label.
pub open spec fn sort_marker(sort: Option<(SortKey, bool)>, key: SortKey) -> Seq<char> {
    if sort == Some((key, true)) {
        " ^"@
    } else if sort == Some((key, false)) {
        " v"@
    } else {
        ""@
    }
}

/// The text of a sortable header.
pub fn sort_header(view: &ViewState, label: &str, key: SortKey) -> (r: String)
    ensures
        r@ == label@ + sort_marker(view.sort, key),
{
    let marker = match view.sort {
        Some((k, ascending)) => if k == key {
            if ascending {
                " ^"
            } else {
                " v"
            }
        } else {
            ""
        },
        None => "",
    };
    let mut s = label.to_owned();
    s.append(marker);
    s
}

/// A click on a sortable header.
pub fn click_header(view: &mut ViewState, key: SortKey)
    ensures
        *final(view) == (ViewState { sort: cycled(old(view).sort, key), ..*old(view) }),
{
    view.sort = match view.sort {
        Some((k, ascending)) => if k == key {
            if ascending {
                Some((key, false))
            } else {
                None
            }
        } else {
            Some((key, true))
        },
        None => Some((key, true)),
    };
}

/// Three clicks on one header restore the caster's order.
pub proof fn law_third_click_restores_caster_order(sort: Option<(SortKey, bool)>, key: SortKey)
    requires
        sort matches Some((k, _)) ==> k != key,
    ensures
        cycled(cycled(cycled(sort, key), key), key) is None,
{
}

/// The stream table's columns; the sortable ones carry their key.
pub fn str_columns() -> (r: Vec<(&'static str, Option<SortKey>)>)
    ensures
        r@.len() == 15,
        forall|i: int|
            0 <= i < 15 ==> (#[trigger] r@[i]).1 == (if i == 0 {
                Some(SortKey::Mount)
            } else if i == 2 {
                Some(SortKey::Format)
            } else if i == 6 {
                Some(SortKey::Country)
            } else if i == 14 {
                Some(SortKey::Bitrate)
            } else {
                None::<SortKey>
            }),
        r@[0].0@ == "Mount"@,
        r@[1].0@ == "Identifier"@,
        r@[2].0@ == "Format"@,
        r@[3].0@ == "Carrier"@,
        r@[4].0@ == "Nav"@,
        r@[5].0@ == "Network"@,
        r@[6].0@ == "Country"@,
        r@[7].0@ == "Lat"@,
        r@[8].0@ == "Lon"@,
        r@[9].0@ == "NMEA"@,
        r@[10].0@ == "Solution"@,
        r@[11].0@ == "Generator"@,
        r@[12].0@ == "Auth"@,
        r@[13].0@ == "Fee"@,
        r@[14].0@ == "Bitrate"@,
{
    let mut r: Vec<(&'static str, Option<SortKey>)> = Vec::new();
    r.push(("Mount", Some(SortKey::Mount)));
    r.push(("Identifier", None));
    r.push(("Format", Some(SortKey::Format)));
    r.push(("Carrier", None));
    r.push(("Nav", None));
    r.push(("Network", None));
    r.push(("Country", Some(SortKey::Country)));
    r.push(("Lat", None));
    r.push(("Lon", None));
    r.push(("NMEA", None));
    r.push(("Solution", None));
    r.push(("Generator", None));
    r.push(("Auth", None));
    r.push(("Fee", None));
    r.push(("Bitrate", Some(SortKey::Bitrate)));
    r
}

/// "yes" for a set flag, nothing otherwise.
pub open spec fn yes(flag: bool) -> Seq<char> {
    if flag {
        "yes"@
    } else {
        ""@
    }
}

/// A stream's cells in column order, its coordinates given as text.
pub open spec fn stream_cells(s: StrRecord, lat: Seq<char>, lon: Seq<char>) -> Seq<Seq<char>> {
    seq![
        s.mountpoint@,
        s.identifier@,
        s.format@,
        s.carrier@,
        s.nav_system@,
        s.network@,
        s.country@,
        lat,
        lon,
        yes(s.nmea_required),
        s.solution@,
        s.generator@,
        trim(s.auth@),
        yes(s.fee),
        dec(s.bitrate as nat),
    ]
}

fn yes_text(flag: bool) -> (r: String)
    ensures
        r@ == yes(flag),
{
    if flag {
        "yes".to_owned()
    } else {
        "".to_owned()
    }
}

/// A stream's cells in column order, its coordinates given as text.
pub fn str_cells(s: &StrRecord, lat: &str, lon: &str) -> (r: Vec<String>)
    ensures
        texts(r@) == stream_cells(*s, lat@, lon@),
{
    let mut r: Vec<String> = Vec::new();
    r.push(s.mountpoint.clone());
    r.push(s.identifier.clone());
    r.push(s.format.clone());
    r.push(s.carrier.clone());
    r.push(s.nav_system.clone());
    r.push(s.network.clone());
    r.push(s.country.clone());
    r.push(lat.to_owned());
    r.push(lon.to_owned());
    r.push(yes_text(s.nmea_required));
    r.push(s.solution.clone());
    r.push(s.generator.clone());
    r.push(trimmed(s.auth.as_str()).to_owned());
    r.push(yes_text(s.fee));
    r.push(dec_string(s.bitrate as u64));
    assert(texts(r@) =~= stream_cells(*s, lat@, lon@));
    r
}

/// A caster's cells in column order, its coordinates given as text.
pub fn cas_cells(c: &CasRecord, lat: &str, lon: &str) -> (r: Vec<String>)
    ensures
        texts(r@) == seq![
            c.host@,
            dec(c.port as nat),
            c.identifier@,
            c.operator@,
            c.nmea@,
            c.country@,
            lat@,
            lon@,
            c.misc@,
        ],
{
    let mut r: Vec<String> = Vec::new();
    r.push(c.host.clone());
    r.push(dec_string(c.port as u64));
    r.push(c.identifier.clone());
    r.push(c.operator.clone());
    r.push(c.nmea.clone());
    r.push(c.country.clone());
    r.push(lat.to_owned());
    r.push(lon.to_owned());
    r.push(c.misc.clone());
    assert(texts(r@) =~= seq![
        c.host@,
        dec(c.port as nat),
        c.identifier@,
        c.operator@,
        c.nmea@,
        c.country@,
        lat@,
        lon@,
        c.misc@,
    ]);
    r
}

/// A network's cells in column order.
pub fn net_cells(n: &NetRecord) -> (r: Vec<String>)
    ensures
        texts(r@) == seq![
            n.identifier@,
            n.operator@,
            n.auth@,
            n.fee@,
            n.web_net@,
            n.web_str@,
            n.web_reg@,
            n.misc@,
        ],
{
    let mut r: Vec<String> = Vec::new();
    r.push(n.identifier.clone());
    r.push(n.operator.clone());
    r.push(n.auth.clone());
    r.push(n.fee.clone());
    r.push(n.web_net.clone());
    r.push(n.web_str.clone());
    r.push(n.web_reg.clone());
    r.push(n.misc.clone());
    assert(texts(r@) =~= seq![
        n.identifier@,
        n.operator@,
        n.auth@,
        n.fee@,
        n.web_net@,
        n.web_str@,
        n.web_reg@,
        n.misc@,
    ]);
    r
}

/// Whether a stream's row shows as selected.
pub fn row_selected(view: &ViewState, s: &StrRecord) -> (r: bool)
    ensures
        r == match view.selected {
            Some(m) => m@ == s.mountpoint@,
            None => false,
        },
{
    match &view.selected {
        Some(m) => same_text(m.as_str(), s.mountpoint.as_str()),
        None => false,
    }
}

/// A click on a stream's row selects it; a double click also uses it.
pub fn click_row(view: &mut ViewState, s: &StrRecord, double: bool) -> (r: Option<Pending>)
    ensures
        final(view).selected matches Some(m) && m@ == s.mountpoint@,
        *final(view) == (ViewState { selected: final(view).selected, ..*old(view) }),
        match r {
            Some(Pending::UseMount(m)) => double && m@ == s.mountpoint@,
            Some(Pending::Refresh) => false,
            None => !double,
        },
{
    view.selected = Some(s.mountpoint.clone());
    if double {
        Some(Pending::UseMount(s.mountpoint.clone()))
    } else {
        None
    }
}

/// The selected mountpoint, when the current table carries a stream of that
/// name; a refreshed table can reorder or drop streams, and a selection then
/// names the same stream or nothing.
pub fn resolve_selection<'a>(strs: &'a Vec<StrRecord>, selected: Option<&str>) -> (r: Option<
    &'a str,
>)
    ensures
        match selected {
            Some(sel) => match r {
                Some(m) => m@ == sel@ && exists|i: int|
                    0 <= i < strs@.len() && (#[trigger] strs@[i]).mountpoint@ == sel@,
                None => forall|i: int|
                    0 <= i < strs@.len() ==> (#[trigger] strs@[i]).mountpoint@ != sel@,
            },
            None => r is None,
        },
{
    match selected {
        None => None,
        Some(sel) => {
            let mut i: usize = 0;
            while i < strs.len()
                invariant
                    i <= strs@.len(),
                    selected == Some(sel),
                    forall|j: int| 0 <= j < i ==> (#[trigger] strs@[j]).mountpoint@ != sel@,
                decreases strs.len() - i,
            {
                if same_text(strs[i].mountpoint.as_str(), sel) {
                    assert(strs@[i as int].mountpoint@ == sel@);
                    return Some(strs[i].mountpoint.as_str());
                }
                i += 1;
            }
            None
        },
    }
}

/// What the footer shows.
#[derive(Debug)]
pub struct Footer {
    pub counts: String,
    /// The label of the button that uses the selection.
    pub use_label: String,
    /// The mountpoint that the button uses; it is disabled without one.
    pub chosen: Option<String>,
}

/// The footer: counts, and the button for the selected stream.
pub fn footer(view: &ViewState, table: &SourceTable) -> (r: Footer)
    ensures
        r.counts@ == footer_text(
            *table,
            trim(view.filter@),
            shown_count(*table, view.tab, trim(view.filter@)),
            total_count(*table, view.tab),
        ),
        match r.chosen {
            Some(m) => (view.selected matches Some(sel) && sel@ == m@) && (exists|i: int|
                0 <= i < table.strs@.len() && (#[trigger] table.strs@[i]).mountpoint@ == m@)
                && r.use_label@ == "Use "@ + m@,
            None => (view.selected matches Some(sel) ==> forall|i: int|
                0 <= i < table.strs@.len() ==> (#[trigger] table.strs@[i]).mountpoint@ != sel@)
                && r.use_label@ == "Use"@,
        },
{
    let selected: Option<&str> = match &view.selected {
        Some(s) => Some(s.as_str()),
        None => None,
    };
    let counts = footer_counts(table, view.tab, view.filter.as_str());
    match resolve_selection(&table.strs, selected) {
        Some(m) => {
            let mut use_label = "Use ".to_owned();
            use_label.append(m);
            Footer { counts, use_label, chosen: Some(m.to_owned()) }
        },
        None => Footer { counts, use_label: "Use".to_owned(), chosen: None },
    }
}

/// What stands in place of a table that is not loaded.
pub fn empty_hint(host: &str, port: u16) -> (r: Vec<String>)
    ensures
        texts(r@) == (if host@.len() == 0 {
            seq!["No caster host configured. Enter one in the NTRIP Caster panel first."@]
        } else {
            seq![
                "No sourcetable loaded for "@ + host@ + ":"@ + dec(port as nat) + "."@,
                "Refresh fetches it from the caster (held in memory for this session)."@,
            ]
        }),
{
    let mut r: Vec<String> = Vec::new();
    if host.is_empty() {
        r.push(
            "No caster host configured. Enter one in the NTRIP Caster panel first.".to_owned(),
        );
        assert(texts(r@) =~= seq![
            "No caster host configured. Enter one in the NTRIP Caster panel first."@,
        ]);
    } else {
        let mut s = "No sourcetable loaded for ".to_owned();
        s.append(host);
        s.append(":");
        push_dec(&mut s, port as u64);
        s.append(".");
        r.push(s);
        r.push(
            "Refresh fetches it from the caster (held in memory for this session).".to_owned(),
        );
        assert(texts(r@) =~= seq![
            "No sourcetable loaded for "@ + host@ + ":"@ + dec(port as nat) + "."@,
            "Refresh fetches it from the caster (held in memory for this session)."@,
        ]);
    }
    r
}

} // verus!
