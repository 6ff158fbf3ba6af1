//! Laws of the lists that the window shows: lines, ports, points and rates.
use vstd::prelude::*;
use vstd::utf8::encode_utf8;

use crate::bus::SerialStatus;
use crate::ieee::Real64;
use crate::laws::words::{found_ci, lemma_found, lemma_lex_difference};
use crate::laws::mentions;
use crate::state::{AppState, PlotSeries, RateFold, RateMeter, Ring, SerialUi};
use crate::text::{dec, trim};
use crate::ui::connlog_window;
use crate::ui::connlog_window::{
    copy_text, direction, direction_color, hex_dump, join_lines, row_line, tab, toggle_hex, ConnTab,
    Direction,
};
use crate::ui::serial_block::{
    bauds, data_bits, link_button, novatel_rates, port_combo, port_text, status_line, stop_bits,
    PortMenu,
};
use crate::ui::theme::{Color, ACCENT, DANGER, SUCCESS};
use crate::workers::serial::{list_ports, port_label, PortKind};

verus! {

/// A line that is added is the last; the first goes where there is no room,
/// and no other line is lost or moved past another.
pub proof fn law_lines_are_kept_newest_last(ring: &mut Ring, line: String, n: usize)
    requires
        call_ensures(Ring::push, (ring, line), ()),
        call_ensures(Ring::len, (&*final(ring),), n),
        old(ring)@.lines.len() <= old(ring)@.cap,
        old(ring)@.cap > 0,
    ensures
        ({
            let (a, b) = (old(ring)@.lines, final(ring)@.lines);
            &&& b.len() == n && n <= old(ring)@.cap
            &&& b.last() == line@
            &&& a.len() < old(ring)@.cap ==> n == a.len() + 1 && forall|i: int|
                0 <= i < a.len() ==> #[trigger] a[i] == b[i]
            &&& a.len() == old(ring)@.cap ==> n == a.len() && forall|i: int|
                1 <= i < a.len() ==> #[trigger] a[i] == b[i - 1]
            &&& final(ring)@.cap == old(ring)@.cap
        }),
{
}

/// A line is had by its place, and beyond the last there is none; cleared,
/// nothing is left.
pub proof fn law_lines_are_had_by_place(
    cap: usize,
    fresh: Ring,
    ring: &Ring,
    i: usize,
    r: Option<&String>,
    empty: bool,
    cleared: &mut Ring,
)
    requires
        call_ensures(Ring::new, (cap,), fresh),
        call_ensures(Ring::get, (ring, i), r),
        call_ensures(Ring::is_empty, (ring,), empty),
        call_ensures(Ring::clear, (cleared,), ()),
    ensures
        fresh@.lines.len() == 0 && fresh@.cap == cap,
        r is Some <==> i < ring@.lines.len(),
        r matches Some(s) ==> s@ == ring@.lines[i as int],
        empty <==> ring@.lines.len() == 0,
        final(cleared)@.lines.len() == 0 && final(cleared)@.cap == old(cleared)@.cap,
{
}

/// The lines as one text: the text of the rest, then the last line and a line
/// end.
pub proof fn law_lines_are_joined(ring: &mut Ring, line: String, before: String, after: String)
    requires
        call_ensures(Ring::join, (&*old(ring),), before),
        call_ensures(Ring::push, (ring, line), ()),
        call_ensures(Ring::join, (&*final(ring),), after),
        old(ring)@.lines.len() < old(ring)@.cap,
    ensures
        after@ == before@ + line@ + seq!['\n'],
        old(ring)@.lines.len() == 0 ==> before@.len() == 0,
{
    reveal_strlit("\n");
    assert("\n"@ =~= seq!['\n']);
    assert(final(ring)@.lines.drop_last() =~= old(ring)@.lines);
}

/// A plotted value is the current one and widens the range where it is beyond
/// it; below a full plot each point that is due is kept as it came.
pub proof fn law_points_are_plotted(
    p: &mut PlotSeries,
    t: Real64,
    v: Real64,
    all: &Vec<(Real64, Real64)>,
)
    requires
        call_ensures(PlotSeries::push, (p, t, v), ()),
        call_ensures(PlotSeries::points, (&*final(p),), all),
        old(p)@.wf() && old(p)@.takes_more(),
    ensures
        ({
            let (a, b) = (old(p)@, final(p)@);
            &&& b.current == Some(v)
            &&& a.min is None ==> b.min == Some(v)
            &&& a.max is None ==> b.max == Some(v)
            &&& a.min matches Some(m) ==> b.min == Some(m) || b.min == Some(v)
            &&& a.max matches Some(m) ==> b.max == Some(m) || b.max == Some(v)
            &&& !v.is_nan() ==> b.min->0.rank() <= v.rank() <= b.max->0.rank()
            &&& a.min matches Some(m) ==> !m.is_nan() ==> b.min->0.rank() <= m.rank()
            &&& a.max matches Some(m) ==> !m.is_nan() ==> m.rank() <= b.max->0.rank()
            &&& all@ == b.points && b.cap == a.cap
            &&& a.skip > 0 ==> b.points == a.points && b.skip == a.skip - 1
            &&& a.skip == 0 && a.points.len() + 1 < a.cap ==> b.points.len() == a.points.len() + 1
                && (b.points.last().0 == t && b.points.last().1 == v) && forall|i: int|
                0 <= i < a.points.len() ==> #[trigger] a.points[i] == b.points[i]
            &&& a.skip == 0 && a.points.len() + 1 == a.cap ==> 2 * b.points.len() <= a.cap + 1
                && forall|i: int|
                0 <= i < b.points.len() && 2 * i < a.points.len() ==> #[trigger] b.points[i]
                    == a.points[2 * i]
        }),
{
}

/// The order of values is that of their signs and magnitudes.
pub proof fn law_values_are_ordered(a: Real64, b: Real64, least: Real64, most: Real64)
    requires
        call_ensures(Real64::min_of, (a, b), least),
        call_ensures(Real64::max_of, (a, b), most),
        a.bits % 0x8000_0000_0000_0000 <= 0x7FF0_0000_0000_0000,
        b.bits % 0x8000_0000_0000_0000 <= 0x7FF0_0000_0000_0000,
    ensures
        a.bits < b.bits < 0x8000_0000_0000_0000 ==> least == a && most == b,
        0x8000_0000_0000_0000 < a.bits < b.bits ==> least == b && most == a,
        a.bits < 0x8000_0000_0000_0000 < b.bits ==> least == b && most == a,
        least == a || least == b,
        most == a || most == b,
{
}

/// A new or cleared plot has no points and no figures.
pub proof fn law_plots_start_empty(cap: usize, p: PlotSeries, q: &mut PlotSeries)
    requires
        call_ensures(PlotSeries::new, (cap,), p),
        call_ensures(PlotSeries::clear, (q,), ()),
        old(q)@.wf(),
    ensures
        p@.points.len() == 0 && p@.current is None && p@.min is None && p@.max is None,
        cap >= 2 ==> p@.cap == cap,
        p@.skip == 0 && p@.stride == 1,
        final(q)@.points.len() == 0 && final(q)@.current is None && final(q)@.min is None
            && final(q)@.max is None && final(q)@.cap == old(q)@.cap && final(q)@.stride == 1,
{
}

/// A silent type's window ends after its second too: with what it counted, and
/// counted from nothing again. No count and no other window changes.
pub proof fn law_silent_windows_end(
    state: &mut AppState,
    now: u64,
    r: Vec<(u16, RateFold)>,
    k: u16,
)
    requires
        call_ensures(AppState::tick, (state, now), r),
        old(state).ntrip.rtcm@.contains_key(k),
    ensures
        ({
            let a = old(state).ntrip.rtcm@[k];
            let b = final(state).ntrip.rtcm@[k];
            let over = a.rate.window_start matches Some(t) && now - t >= 1_000_000_000;
            &&& final(state).ntrip.rtcm@.contains_key(k)
            &&& b.count == a.count && b.last_seen == a.last_seen && b.last_frame_len
                == a.last_frame_len
            &&& over ==> b.rate.window_count == 0 && b.rate.window_start == Some(now)
            &&& !over ==> b.rate == a.rate
            &&& over ==> exists|i: int| 0 <= i < r@.len() && (#[trigger] r@[i]).0 == k
            &&& forall|i: int|
                0 <= i < r@.len() && (#[trigger] r@[i]).0 == k ==> over && r@[i].1.count
                    == a.rate.window_count
        }),
        final(state).gnss == old(state).gnss && final(state).events == old(state).events,
        final(state).ntrip.total_bytes == old(state).ntrip.total_bytes,
{
    crate::state::law_each_full_window_is_folded_once(old(state).ntrip.rtcm@, now);
    assert(final(state).ntrip.rtcm@.dom().contains(k));
}

/// A meter alone ends its window in the same way.
pub proof fn law_meter_windows_end(
    m: &mut RateMeter,
    now: u64,
    r: Option<RateFold>,
    fresh: RateMeter,
)
    requires
        call_ensures(RateMeter::tick, (m, now), r),
        call_ensures(RateMeter::new, (), fresh),
    ensures
        fresh.window_start is None && fresh.window_count == 0,
        r is Some <==> (old(m).window_start matches Some(t) && now - t >= 1_000_000_000),
        r matches Some(f) ==> f.count == old(m).window_count && final(m).window_count == 0
            && final(m).window_start == Some(now) && (old(m).window_start matches Some(t) && t
            + f.elapsed.nanos == now),
        r is None ==> *final(m) == *old(m),
{
}

/// A line of the connection log is sent where a `>` and a space stand before
/// it, received where a `<` does, behind the time of day where it has one.
pub proof fn law_directions_are_marked(line: &str, r: Direction, c: Option<Color>)
    requires
        call_ensures(direction, (line,), r),
        call_ensures(direction_color, (&r,), c),
    ensures
        ({
            let b = encode_utf8(line@);
            let at: int = if b.len() >= 9 && b[2] == 58 && b[5] == 58 && b[8] == 32 {
                9
            } else {
                0
            };
            &&& r == Direction::Tx <==> b.len() >= at + 2 && b[at] == 62 && b[at + 1] == 32
            &&& r == Direction::Rx <==> b.len() >= at + 2 && b[at] == 60 && b[at + 1] == 32
        }),
        r == Direction::Tx <==> c == Some(ACCENT),
        r == Direction::Rx <==> c == Some(SUCCESS),
{
}

/// With a filter the log shows the lines that hold it, in their order and by
/// their own places, and tells how many of how many; as hexadecimal it shows
/// the captured answer, whatever the filter.
pub proof fn law_log_is_filtered(
    view: &connlog_window::ViewState,
    conn: &Ring,
    raw: Option<&Vec<u8>>,
    r: ConnTab,
    i: int,
    k: int,
)
    requires
        call_ensures(tab, (view, conn, raw), r),
        conn@.lines.len() <= usize::MAX,
    ensures
        r.hex_active <==> view.show_hex && raw is Some,
        r.toggle_enabled <==> raw is Some,
        r.filtered is Some <==> view.filter@.len() > 0 && !r.hex_active,
        r.filtered matches Some(idx) ==> {
            &&& 0 <= i < idx@.len() ==> idx@[i] < conn@.lines.len() && found_ci(
                conn@.lines[idx@[i] as int],
                view.filter@,
            )
            &&& 0 <= i < k < idx@.len() ==> idx@[i] < idx@[k]
            &&& 0 <= k < conn@.lines.len() && found_ci(conn@.lines[k], view.filter@)
                ==> idx@.contains(k as usize)
            &&& r.count@ == dec(idx@.len()) + " of "@ + dec(conn@.lines.len()) + " lines"@
        },
        r.hex_active ==> r.count@ == dec(raw->0@.len()) + " bytes"@,
        !r.hex_active && view.filter@.len() == 0 ==> r.count@ == dec(conn@.lines.len())
            + " lines"@,
{
    let lines = conn@.lines;
    let filter = view.filter@;
    let f = |j: int| crate::ui::text::contains_ci(lines[j], filter);
    crate::ui::text::lemma_indices(lines.len(), f);
    if let Some(idx) = r.filtered {
        assert(idx@ == crate::ui::text::indices(lines.len(), f));
        if 0 <= i < idx@.len() {
            assert(f(idx@[i] as int));
            lemma_found(lines[idx@[i] as int], filter);
            if i < k < idx@.len() {
                assert(idx@[i] < idx@[k]);
            }
        }
        if 0 <= k < lines.len() {
            lemma_found(lines[k], filter);
            if found_ci(lines[k], filter) {
                assert(f(k));
                assert(idx@.contains(k as usize));
            }
        }
    }
}

/// What is copied is what is shown: the dump, the lines of the filter, or all
/// lines.
pub proof fn law_copy_takes_what_is_shown(
    view: &connlog_window::ViewState,
    conn: &Ring,
    raw: Option<&Vec<u8>>,
    r: String,
    shown: ConnTab,
    all: String,
    some: String,
    idx: &Vec<usize>,
    bytes: &[u8],
    dump: String,
)
    requires
        call_ensures(copy_text, (view, conn, raw), r),
        call_ensures(tab, (view, conn, raw), shown),
        call_ensures(Ring::join, (conn,), all),
        call_ensures(join_lines, (conn, idx), some),
        call_ensures(hex_dump, (bytes,), dump),
        shown.filtered matches Some(v) ==> v == *idx,
        raw matches Some(v) ==> v@ == bytes@,
    ensures
        shown.hex_active ==> r@ == dump@,
        shown.filtered is Some ==> r@ == some@,
        !shown.hex_active && shown.filtered is None ==> r@ == all@,
{
}

/// A row shows the line that the filter put there; the switch only switches.
pub proof fn law_rows_show_their_line(
    conn: &Ring,
    filtered: &Option<Vec<usize>>,
    at: usize,
    l: Option<&String>,
    view: &mut connlog_window::ViewState,
)
    requires
        call_ensures(row_line, (conn, filtered, at), l),
        call_ensures(toggle_hex, (view,), ()),
    ensures
        *filtered is None ==> (l is Some <==> at < conn@.lines.len()),
        *filtered is None ==> (l matches Some(s) ==> s@ == conn@.lines[at as int]),
        *filtered matches Some(v) ==> (l matches Some(s) ==> at < v@.len() && s@
            == conn@.lines[v@[at as int] as int]),
        *filtered matches Some(v) ==> at < v@.len() && v@[at as int] < conn@.lines.len()
            ==> l is Some,
        final(view).show_hex != old(view).show_hex,
        final(view).filter == old(view).filter,
{
}

/// Whether a text's bytes come before another's, or are the same.
pub open spec fn not_after(a: Seq<char>, b: Seq<char>) -> bool {
    let (x, y) = (encode_utf8(a), encode_utf8(b));
    x == y || exists|k: int| #[trigger] parts_at(x, y, k)
}

/// Whether bytes agree up to `k`, where the first end or are smaller.
pub open spec fn parts_at(x: Seq<u8>, y: Seq<u8>, k: int) -> bool {
    0 <= k <= x.len() && k < y.len() && x.take(k) == y.take(k) && (k == x.len() || x[k] < y[k])
}

/// The ports stand in the order of their names. All that were found are there,
/// each with its own label, and no others.
pub proof fn law_ports_are_listed_by_name(
    found: Vec<(String, PortKind)>,
    r: Vec<(String, String)>,
    i: int,
    j: int,
    k: int,
)
    requires
        call_ensures(list_ports, (found,), r),
    ensures
        r@.len() == found@.len(),
        0 <= i < j < r@.len() ==> not_after(r@[i].0@, r@[j].0@),
        0 <= k < found@.len() ==> exists|p: int|
            0 <= p < r@.len() && (#[trigger] r@[p]).0@ == found@[k].0@ && r@[p].1@ == (
            match found@[k].1 {
                PortKind::Usb(Some(product)) => product@,
                PortKind::Bluetooth => "Bluetooth"@,
                _ => Seq::empty(),
            }),
{
    let t = crate::workers::serial::port_texts(r@);
    let l = crate::workers::serial::labelled(found@);
    t.to_multiset_ensures();
    l.to_multiset_ensures();
    assert(t.len() == l.len());
    if 0 <= i < j < r@.len() {
        let (x, y) = (encode_utf8(t[i].0), encode_utf8(t[j].0));
        assert(crate::workers::serial::port_order(t[i], t[j]) <= 0);
        let d = lemma_lex_difference(x, y);
        assert(x.take(d) =~= y.take(d));
        if x =~= y {
        } else {
            if crate::order::lex(x, y) == 0 {
                assert(x =~= y);
            }
            assert(parts_at(x, y, d));
        }
    }
    if 0 <= k < found@.len() {
        assert(l.to_multiset().contains(l[k]));
        assert(t.contains(l[k]));
        let p = choose|p: int| 0 <= p < t.len() && t[p] == l[k];
        assert(r@[p].0@ == t[p].0);
    }
}

/// A USB device is labelled with its product, if it has one.
pub proof fn law_ports_are_labelled(kind: &PortKind, r: String)
    requires
        call_ensures(port_label, (kind,), r),
    ensures
        *kind matches PortKind::Usb(Some(p)) ==> r@ == p@,
        *kind is Bluetooth ==> r@ == "Bluetooth"@,
        *kind is Other || *kind == PortKind::Usb(None) ==> r@.len() == 0,
{
}

/// The menu offers the ports that are there, in their order, and the chosen
/// one behind them where it is not there, marked as missing.
pub proof fn law_chosen_port_is_offered(
    ports: &Vec<(String, String)>,
    current: &str,
    r: PortMenu,
    i: int,
)
    requires
        call_ensures(port_combo, (ports, current), r),
    ensures
        r.items@.len() >= ports@.len(),
        0 <= i < ports@.len() ==> r.items@[i].0@ == ports@[i].0@ && r.items@[i].1@ == ports@[i].1@,
        r.items@.len() == ports@.len() || (r.items@.len() == ports@.len() + 1
            && r.items@.last().0@ == current@ && r.items@.last().1@ == "not present"@),
        0 <= i < ports@.len() && ports@[i].0@ == current@ ==> r.items@.len() == ports@.len(),
        current@.len() == 0 ==> r.items@.len() == ports@.len(),
        current@.len() > 0 && r.items@.len() == ports@.len() ==> exists|j: int|
            0 <= j < ports@.len() && (#[trigger] ports@[j]).0@ == current@,
{
    let a = crate::workers::serial::port_texts(ports@);
    let b = crate::workers::serial::port_texts(r.items@);
    assert(a.len() == ports@.len() && b.len() == r.items@.len());
    lemma_port_named(a, current@);
    if 0 <= i < ports@.len() {
        assert(a[i] == b[i]);
        assert(b[i].0 == r.items@[i].0@);
    }
    if r.items@.len() > ports@.len() {
        assert(b.last() == b[ports@.len() as int]);
    } else if current@.len() > 0 {
        let j = crate::ui::serial_block::port_named(a, current@)->0;
        assert(a[j].0 == ports@[j].0@);
    }
}

proof fn lemma_port_named(ports: Seq<(Seq<char>, Seq<char>)>, name: Seq<char>)
    ensures
        match crate::ui::serial_block::port_named(ports, name) {
            Some(i) => 0 <= i < ports.len() && ports[i].0 == name,
            None => forall|j: int| 0 <= j < ports.len() ==> (#[trigger] ports[j]).0 != name,
        },
    decreases ports.len(),
{
    if ports.len() > 0 {
        let head = ports.drop_last();
        lemma_port_named(head, name);
        assert(forall|j: int| 0 <= j < head.len() ==> #[trigger] ports[j] == head[j]);
    }
}

/// A port is shown by its name, with its label behind it if it has one.
pub proof fn law_ports_are_shown(name: &str, label: &str, r: String)
    requires
        call_ensures(port_text, (name, label), r),
    ensures
        r@.take(name@.len() as int) == name@,
        label@.len() == 0 ==> r@ == name@,
        label@.len() > 0 ==> r@.skip(r@.len() - label@.len()) == label@ && r@.len() == name@.len()
            + 3 + label@.len(),
{
    reveal_strlit(" - ");
    assert(r@.take(name@.len() as int) =~= name@);
    if label@.len() > 0 {
        assert(r@.skip(r@.len() - label@.len()) =~= label@);
    }
}

/// The choices are what a port and a receiver can be set to, in order.
pub proof fn law_serial_choices(b: [u32; 7], d: [u8; 2], s: [u8; 2], n: [u8; 3])
    requires
        call_ensures(bauds, (), b),
        call_ensures(data_bits, (), d),
        call_ensures(stop_bits, (), s),
        call_ensures(novatel_rates, (), n),
    ensures
        b@[0] == 2400 && b@[1] == 2 * b@[0] && b@[2] == 2 * b@[1] && b@[3] == 2 * b@[2],
        b@[4] == 2 * b@[3] && b@[5] == 3 * b@[3] && b@[6] == 2 * b@[5],
        d@[0] == 7 && d@[1] == 8,
        s@[0] == 1 && s@[1] == 2,
        n@[0] == 1 && n@[1] == 5 && n@[2] == 10,
{
}

/// The receiver's line tells the port and its settings while connected, else
/// why not, and the overruns where there were any.
pub proof fn law_receiver_line(
    s: &SerialUi,
    r: (String, Color),
    connected: bool,
    port: &str,
    b: (&'static str, bool),
)
    requires
        call_ensures(status_line, (s,), r),
        call_ensures(link_button, (connected, port), b),
    ensures
        s.status matches SerialStatus::Connected { port: p, detail } ==> r.1 == SUCCESS && mentions(
            r.0@,
            p@ + " ("@ + detail@ + ")"@,
        ),
        s.status matches SerialStatus::Disconnected { reason } ==> (r.1 == DANGER <==> reason@.len()
            > 0) && (reason@.len() > 0 ==> r.0@.take(reason@.len() as int) == reason@),
        s.overruns > 0 ==> mentions(r.0@, "overruns: "@ + dec(s.overruns as nat)),
        connected ==> b.0@ == "Disconnect"@ && b.1,
        !connected ==> b.0@ == "Connect"@ && (b.1 <==> trim(port@).len() > 0),
{
    let words = crate::ui::serial_block::link_words(s.status);
    let t = r.0@;
    if let SerialStatus::Connected { port: p, detail } = s.status {
        let part = p@ + " ("@ + detail@ + ")"@;
        let n = "Connected: "@.len() as int;
        assert(t.subrange(n, n + part.len()) =~= part);
    }
    if let SerialStatus::Disconnected { reason } = s.status {
        if reason@.len() > 0 {
            assert(t.take(reason@.len() as int) =~= reason@);
        }
    }
    if s.overruns > 0 {
        let d = dec(s.overruns as nat);
        reveal_strlit("  |  overruns: ");
        reveal_strlit("overruns: ");
        let part = "overruns: "@ + d;
        let n = words.len() as int + 5;
        assert("  |  overruns: "@.skip(5) =~= "overruns: "@);
        assert(t.subrange(n, n + part.len()) =~= part);
    }
}

} // verus!
