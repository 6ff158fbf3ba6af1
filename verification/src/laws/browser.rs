//! Laws of the sourcetable browser.
use vstd::prelude::*;

use crate::laws::words::{before_ci, found_ci, lemma_ci_order, lemma_found, same_ci};
use crate::sourcetable::{CasRecord, NetRecord, SourceTable, StrRecord};
use crate::text::{dec, texts, trim};
use crate::ui::sourcetable_browser::{
    cas_cells, cas_rows, click_header, click_row, footer, net_cells, net_rows, str_cells,
    str_columns, str_rows, unparsed_rows, Footer, Pending, SortKey, ViewState,
};
use crate::ui::text::{indices, lemma_indices};

verus! {

/// Whether the column that a key names puts a record before another.
pub open spec fn column_before(key: SortKey, a: StrRecord, b: StrRecord) -> bool {
    match key {
        SortKey::Mount => before_ci(a.mountpoint@, b.mountpoint@),
        SortKey::Format => before_ci(a.format@, b.format@),
        SortKey::Country => before_ci(a.country@, b.country@),
        SortKey::Bitrate => a.bitrate < b.bitrate,
    }
}

/// Whether the column that a key names makes no difference between records.
pub open spec fn column_same(key: SortKey, a: StrRecord, b: StrRecord) -> bool {
    match key {
        SortKey::Mount => same_ci(a.mountpoint@, b.mountpoint@),
        SortKey::Format => same_ci(a.format@, b.format@),
        SortKey::Country => same_ci(a.country@, b.country@),
        SortKey::Bitrate => a.bitrate == b.bitrate,
    }
}

/// Whether row `a` may stand above row `b`, ascending: by the column, by the
/// mountpoint where the column makes no difference, and in the caster's order
/// where neither does.
pub open spec fn in_order(
    key: SortKey,
    a: StrRecord,
    b: StrRecord,
    caster_order: bool,
) -> bool {
    ||| column_before(key, a, b)
    ||| column_same(key, a, b) && before_ci(a.mountpoint@, b.mountpoint@)
    ||| column_same(key, a, b) && same_ci(a.mountpoint@, b.mountpoint@) && caster_order
}

/// The rows of the stream table are exactly those in whose mountpoint,
/// identifier, format or country the filter is found, each once; sorted, every
/// row stands in the order of the column that the key names, upside down when
/// descending; unsorted, in the caster's order.
pub proof fn law_rows_are_filtered_and_sorted(
    strs: &Vec<StrRecord>,
    filter: &str,
    sort: Option<(SortKey, bool)>,
    r: Vec<usize>,
)
    requires
        call_ensures(str_rows, (strs, filter, sort), r),
    ensures
        forall|i: int| 0 <= i < r@.len() ==> (#[trigger] r@[i]) < strs@.len(),
        forall|k: usize|
            k < strs@.len() ==> (#[trigger] r@.contains(k) <==> {
                let s = strs@[k as int];
                found_ci(s.mountpoint@, filter@) || found_ci(s.identifier@, filter@) || found_ci(
                    s.format@,
                    filter@,
                ) || found_ci(s.country@, filter@)
            }),
        forall|i: int, j: int|
            0 <= i < j < r@.len() ==> {
                let (a, b) = (strs@[#[trigger] r@[i] as int], strs@[#[trigger] r@[j] as int]);
                &&& r@[i] != r@[j]
                &&& match sort {
                    Some((key, true)) => in_order(key, a, b, r@[i] < r@[j]),
                    Some((key, false)) => in_order(key, b, a, r@[i] < r@[j]),
                    None => r@[i] < r@[j],
                }
            },
{
    assert forall|k: usize| k < strs@.len() implies (#[trigger] r@.contains(k) <==> {
        let s = strs@[k as int];
        found_ci(s.mountpoint@, filter@) || found_ci(s.identifier@, filter@) || found_ci(
            s.format@,
            filter@,
        ) || found_ci(s.country@, filter@)
    }) by {
        let s = strs@[k as int];
        lemma_found(s.mountpoint@, filter@);
        lemma_found(s.identifier@, filter@);
        lemma_found(s.format@, filter@);
        lemma_found(s.country@, filter@);
        if r@.contains(k) {
            let i = choose|i: int| 0 <= i < r@.len() && r@[i] == k;
            assert(r@[i] < strs@.len());
        }
        assert((k as int) as usize == k);
    }
    assert forall|i: int, j: int| 0 <= i < j < r@.len() implies {
        let (a, b) = (strs@[#[trigger] r@[i] as int], strs@[#[trigger] r@[j] as int]);
        &&& r@[i] != r@[j]
        &&& match sort {
            Some((key, true)) => in_order(key, a, b, r@[i] < r@[j]),
            Some((key, false)) => in_order(key, b, a, r@[i] < r@[j]),
            None => r@[i] < r@[j],
        }
    } by {
        let (a, b) = (strs@[r@[i] as int], strs@[r@[j] as int]);
        crate::ui::sourcetable_browser::law_row_order_is_total(
            strs@,
            sort,
            r@[i] as int,
            r@[j] as int,
            r@[i] as int,
        );
        lemma_ci_order(a.mountpoint@, b.mountpoint@);
        lemma_ci_order(b.mountpoint@, a.mountpoint@);
        lemma_ci_order(a.format@, b.format@);
        lemma_ci_order(b.format@, a.format@);
        lemma_ci_order(a.country@, b.country@);
        lemma_ci_order(b.country@, a.country@);
        lemma_order_signs(a, b);
    }
}

proof fn lemma_order_signs(a: StrRecord, b: StrRecord)
    ensures
        forall|x: Seq<char>, y: Seq<char>| #[trigger]
            crate::ui::sourcetable_browser::ci_order(x, y)
                == -crate::ui::sourcetable_browser::ci_order(y, x),
{
    assert forall|x: Seq<char>, y: Seq<char>| #[trigger]
        crate::ui::sourcetable_browser::ci_order(x, y)
            == -crate::ui::sourcetable_browser::ci_order(y, x) by {
        crate::order::lemma_lex_antisymmetric(
            crate::ui::text::lower_bytes(vstd::utf8::encode_utf8(x)),
            crate::ui::text::lower_bytes(vstd::utf8::encode_utf8(y)),
        );
    }
}

/// The rows of the other tables are exactly those in which the filter is
/// found, in the caster's order: of a caster in its host, identifier, operator
/// or country, of a network in its identifier or operator, of any other line
/// in itself.
pub proof fn law_other_rows_are_filtered(
    casters: &Vec<CasRecord>,
    networks: &Vec<NetRecord>,
    lines: &Vec<String>,
    filter: &str,
    c: Vec<usize>,
    n: Vec<usize>,
    u: Vec<usize>,
)
    requires
        call_ensures(cas_rows, (casters, filter), c),
        call_ensures(net_rows, (networks, filter), n),
        call_ensures(unparsed_rows, (lines, filter), u),
        casters@.len() <= usize::MAX,
        networks@.len() <= usize::MAX,
        lines@.len() <= usize::MAX,
    ensures
        forall|k: usize|
            k < casters@.len() ==> (#[trigger] c@.contains(k) <==> {
                let s = casters@[k as int];
                found_ci(s.host@, filter@) || found_ci(s.identifier@, filter@) || found_ci(
                    s.operator@,
                    filter@,
                ) || found_ci(s.country@, filter@)
            }),
        forall|k: usize|
            k < networks@.len() ==> (#[trigger] n@.contains(k) <==> found_ci(
                networks@[k as int].identifier@,
                filter@,
            ) || found_ci(networks@[k as int].operator@, filter@)),
        forall|k: usize|
            k < lines@.len() ==> (#[trigger] u@.contains(k) <==> found_ci(
                lines@[k as int]@,
                filter@,
            )),
        forall|i: int, j: int| 0 <= i < j < c@.len() ==> #[trigger] c@[i] < #[trigger] c@[j],
        forall|i: int, j: int| 0 <= i < j < n@.len() ==> #[trigger] n@[i] < #[trigger] n@[j],
        forall|i: int, j: int| 0 <= i < j < u@.len() ==> #[trigger] u@[i] < #[trigger] u@[j],
{
    let fc = |i: int| crate::ui::sourcetable_browser::caster_matches(casters@[i], filter@);
    let fnet = |i: int| crate::ui::sourcetable_browser::network_matches(networks@[i], filter@);
    let fu = |i: int| crate::ui::text::contains_ci(lines@[i]@, filter@);
    lemma_indices(casters@.len(), fc);
    lemma_indices(networks@.len(), fnet);
    lemma_indices(lines@.len(), fu);
    assert(c@ == indices(casters@.len(), fc));
    assert(n@ == indices(networks@.len(), fnet));
    assert(u@ == indices(lines@.len(), fu));
    assert forall|k: usize| k < casters@.len() implies (#[trigger] c@.contains(k) <==> {
        let s = casters@[k as int];
        found_ci(s.host@, filter@) || found_ci(s.identifier@, filter@) || found_ci(
            s.operator@,
            filter@,
        ) || found_ci(s.country@, filter@)
    }) by {
        let s = casters@[k as int];
        lemma_found(s.host@, filter@);
        lemma_found(s.identifier@, filter@);
        lemma_found(s.operator@, filter@);
        lemma_found(s.country@, filter@);
        if c@.contains(k) {
            let i = choose|i: int| 0 <= i < c@.len() && c@[i] == k;
            assert(fc(c@[i] as int));
        }
        assert(fc(k as int) ==> c@.contains((k as int) as usize));
    }
    assert forall|k: usize| k < networks@.len() implies (#[trigger] n@.contains(k) <==> found_ci(
        networks@[k as int].identifier@,
        filter@,
    ) || found_ci(networks@[k as int].operator@, filter@)) by {
        let s = networks@[k as int];
        lemma_found(s.identifier@, filter@);
        lemma_found(s.operator@, filter@);
        if n@.contains(k) {
            let i = choose|i: int| 0 <= i < n@.len() && n@[i] == k;
            assert(fnet(n@[i] as int));
        }
        assert(fnet(k as int) ==> n@.contains((k as int) as usize));
    }
    assert forall|k: usize| k < lines@.len() implies (#[trigger] u@.contains(k) <==> found_ci(
        lines@[k as int]@,
        filter@,
    )) by {
        lemma_found(lines@[k as int]@, filter@);
        if u@.contains(k) {
            let i = choose|i: int| 0 <= i < u@.len() && u@[i] == k;
            assert(fu(u@[i] as int));
        }
        assert(fu(k as int) ==> u@.contains((k as int) as usize));
    }
}

/// Each cell of a stream's row stands under the header that names it, and the
/// headers that sort carry the key of their own column.
pub proof fn law_cells_stand_under_their_header(
    s: &StrRecord,
    lat: &str,
    lon: &str,
    head: Vec<(&'static str, Option<SortKey>)>,
    row: Vec<String>,
)
    requires
        call_ensures(str_columns, (), head),
        call_ensures(str_cells, (s, lat, lon), row),
    ensures
        head@.len() == row@.len(),
        head@[0].0@ == "Mount"@ && row@[0]@ == s.mountpoint@ && head@[0].1 == Some(SortKey::Mount),
        head@[1].0@ == "Identifier"@ && row@[1]@ == s.identifier@,
        head@[2].0@ == "Format"@ && row@[2]@ == s.format@ && head@[2].1 == Some(SortKey::Format),
        head@[3].0@ == "Carrier"@ && row@[3]@ == s.carrier@,
        head@[4].0@ == "Nav"@ && row@[4]@ == s.nav_system@,
        head@[5].0@ == "Network"@ && row@[5]@ == s.network@,
        head@[6].0@ == "Country"@ && row@[6]@ == s.country@ && head@[6].1 == Some(SortKey::Country),
        head@[7].0@ == "Lat"@ && row@[7]@ == lat@,
        head@[8].0@ == "Lon"@ && row@[8]@ == lon@,
        head@[9].0@ == "NMEA"@ && (row@[9]@.len() > 0 <==> s.nmea_required),
        head@[10].0@ == "Solution"@ && row@[10]@ == s.solution@,
        head@[11].0@ == "Generator"@ && row@[11]@ == s.generator@,
        head@[12].0@ == "Auth"@ && row@[12]@ == trim(s.auth@),
        head@[13].0@ == "Fee"@ && (row@[13]@.len() > 0 <==> s.fee),
        head@[14].0@ == "Bitrate"@ && row@[14]@ == dec(s.bitrate as nat) && head@[14].1 == Some(
            SortKey::Bitrate,
        ),
{
    reveal_strlit("yes");
    reveal_strlit("");
    let t = texts(row@);
    assert(t.len() == 15);
    assert forall|i: int| 0 <= i < 15 implies row@[i]@ == #[trigger] t[i] by {}
    assert(t[0] == s.mountpoint@ && t[1] == s.identifier@ && t[2] == s.format@ && t[3]
        == s.carrier@ && t[4] == s.nav_system@ && t[5] == s.network@ && t[6] == s.country@);
    assert(t[7] == lat@ && t[8] == lon@ && t[10] == s.solution@ && t[11] == s.generator@ && t[12]
        == trim(s.auth@) && t[14] == dec(s.bitrate as nat));
    assert(t[9].len() > 0 <==> s.nmea_required);
    assert(t[13].len() > 0 <==> s.fee);
}

/// A caster's row holds its host, port, identifier, operator, NMEA flag,
/// country, coordinates and remark; a network's its identifier, operator,
/// authentication, fee, three addresses and remark; in that order.
pub proof fn law_other_cells_are_in_order(
    c: &CasRecord,
    lat: &str,
    lon: &str,
    n: &NetRecord,
    x: Vec<String>,
    y: Vec<String>,
)
    requires
        call_ensures(cas_cells, (c, lat, lon), x),
        call_ensures(net_cells, (n,), y),
    ensures
        x@.len() == 9,
        x@[0]@ == c.host@ && x@[1]@ == dec(c.port as nat) && x@[2]@ == c.identifier@,
        x@[3]@ == c.operator@ && x@[4]@ == c.nmea@ && x@[5]@ == c.country@,
        x@[6]@ == lat@ && x@[7]@ == lon@ && x@[8]@ == c.misc@,
        y@.len() == 8,
        y@[0]@ == n.identifier@ && y@[1]@ == n.operator@ && y@[2]@ == n.auth@ && y@[3]@ == n.fee@,
        y@[4]@ == n.web_net@ && y@[5]@ == n.web_str@ && y@[6]@ == n.web_reg@ && y@[7]@ == n.misc@,
{
    let (s, t) = (texts(x@), texts(y@));
    assert(s.len() == 9 && t.len() == 8);
    assert forall|i: int| 0 <= i < 9 implies x@[i]@ == #[trigger] s[i] by {}
    assert forall|i: int| 0 <= i < 8 implies y@[i]@ == #[trigger] t[i] by {}
    assert(s[0] == c.host@ && s[1] == dec(c.port as nat) && s[2] == c.identifier@ && s[3]
        == c.operator@ && s[4] == c.nmea@ && s[5] == c.country@ && s[6] == lat@ && s[7] == lon@
        && s[8] == c.misc@);
    assert(t[0] == n.identifier@ && t[1] == n.operator@ && t[2] == n.auth@ && t[3] == n.fee@ && t[4]
        == n.web_net@ && t[5] == n.web_str@ && t[6] == n.web_reg@ && t[7] == n.misc@);
}

/// Clicks on a header sort by its column, up first, then down, then not at
/// all; whatever was sorted by before gives way, and nothing else changes.
pub proof fn law_header_clicks_cycle(
    first: &mut ViewState,
    second: &mut ViewState,
    third: &mut ViewState,
    key: SortKey,
)
    requires
        call_ensures(click_header, (first, key), ()),
        call_ensures(click_header, (second, key), ()),
        call_ensures(click_header, (third, key), ()),
        *old(second) == *final(first),
        *old(third) == *final(second),
        old(first).sort matches Some((k, _)) ==> k != key,
    ensures
        final(first).sort == Some((key, true)),
        final(second).sort == Some((key, false)),
        final(third).sort is None,
        final(first).filter == old(first).filter,
        final(first).tab == old(first).tab,
        final(first).selected == old(first).selected,
{
}

/// A click selects the row's own mountpoint, and only a double click asks to
/// use it.
pub proof fn law_clicks_select_the_row(
    view: &mut ViewState,
    s: &StrRecord,
    double: bool,
    r: Option<Pending>,
)
    requires
        call_ensures(click_row, (view, s, double), r),
    ensures
        final(view).selected matches Some(m) && m@ == s.mountpoint@,
        double ==> (r matches Some(Pending::UseMount(m)) && m@ == s.mountpoint@),
        !double ==> r is None,
        final(view).sort == old(view).sort && final(view).filter == old(view).filter,
{
}

/// The button uses the selected mountpoint when the table still has it, and
/// nothing when not.
pub proof fn law_selection_is_used_only_if_present(
    view: &ViewState,
    table: &SourceTable,
    r: Footer,
)
    requires
        call_ensures(footer, (view, table), r),
    ensures
        r.chosen matches Some(m) ==> (view.selected matches Some(sel) && sel@ == m@) && exists|
            i: int,
        |
            0 <= i < table.strs@.len() && (#[trigger] table.strs@[i]).mountpoint@ == m@,
        r.chosen is None ==> (view.selected matches Some(sel) ==> forall|i: int|
            0 <= i < table.strs@.len() ==> (#[trigger] table.strs@[i]).mountpoint@ != sel@),
{
}

} // verus!
