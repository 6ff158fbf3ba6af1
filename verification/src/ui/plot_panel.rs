//! The bottom strip: the elevation chart's controls and statistics, and the
//! receive counters.
use vstd::prelude::*;

use crate::decimal::{
    hundredths_text, in_units, push_hundredths, push_tenths, round_integer, round_quotient, rounded,
    rounded_int, tenths_text, to_units, LEAST53,
};

verus! {

/// The label of the chart's disclosure.
pub fn graph_label(open: bool) -> (r: &'static str)
    ensures
        r@ == (if open {
            "v Elevation graph"@
        } else {
            "> Elevation graph"@
        }),
{
    if open {
        "v Elevation graph"
    } else {
        "> Elevation graph"
    }
}

/// The label of the recording button.
pub fn record_label(recording: bool) -> (r: &'static str)
    ensures
        r@ == (if recording {
            "Pause"@
        } else {
            "Start"@
        }),
{
    if recording {
        "Pause"
    } else {
        "Start"
    }
}

/// A number with one decimal, or a dash.
pub open spec fn or_dash(v: Option<&str>) -> Seq<char> {
    match v {
        Some(t) => t@,
        None => "-"@,
    }
}

fn dash<'a>(v: Option<&'a str>) -> (r: &'a str)
    ensures
        r@ == or_dash(v),
{
    match v {
        Some(t) => t,
        None => "-",
    }
}

/// The chart's statistics line; each number has one decimal.
pub fn chart_stats(
    current: Option<&str>,
    min: Option<&str>,
    max: Option<&str>,
    range: Option<&str>,
) -> (r: String)
    ensures
        r@ == "cur "@ + or_dash(current) + "  min "@ + or_dash(min) + "  max "@ + or_dash(max)
            + "  range "@ + or_dash(range) + " m"@,
{
    let mut s = "cur ".to_owned();
    s.append(dash(current));
    s.append("  min ");
    s.append(dash(min));
    s.append("  max ");
    s.append(dash(max));
    s.append("  range ");
    s.append(dash(range));
    s.append(" m");
    s
}

/// A byte total: kilobytes with one decimal below a megabyte, so that the
/// counter visibly moves, and megabytes with two from there on.
pub open spec fn total_text(bytes: u64) -> Seq<char> {
    if bytes < 1_000_000 {
        tenths_text(in_units(rounded(bytes as nat, 1000, LEAST53 as nat), 10)) + " kB"@
    } else {
        hundredths_text(
            in_units(
                rounded(rounded_int(bytes as nat, LEAST53 as nat), 1_000_000, LEAST53 as nat),
                100,
            ),
        ) + " MB"@
    }
}

/// A byte total for the bottom strip.
pub fn fmt_total(bytes: u64) -> (r: String)
    ensures
        r@ == total_text(bytes),
{
    let mut out = String::new();
    if bytes < 1_000_000 {
        let q = round_quotient(bytes as u128, 1000, LEAST53);
        let v: u128 = to_units(q, 10);
        push_tenths(&mut out, v as u64);
        out.append(" kB");
    } else {
        let q = round_quotient(round_integer(bytes, LEAST53), 1_000_000, LEAST53);
        let v: u128 = to_units(q, 100);
        push_hundredths(&mut out, v as u64);
        out.append(" MB");
    }
    assert(out@ =~= total_text(bytes));
    out
}

/// The receive counters; `rate` has one decimal.
pub fn rx_label(rate: &str, bytes: u64) -> (r: String)
    ensures
        r@ == "RX "@ + rate@ + " kB/s   "@ + total_text(bytes),
{
    let mut s = "RX ".to_owned();
    s.append(rate);
    s.append(" kB/s   ");
    let total = fmt_total(bytes);
    s.append(total.as_str());
    s
}

} // verus!
