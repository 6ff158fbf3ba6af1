//! The one-line stream summary: the base station, how much arrives, and
//! whether the framing is clean.
use vstd::prelude::*;

use crate::text::{dec, dec_string, push_dec};

verus! {

/// Whether the framing looks clean.
#[derive(Debug, Clone, Copy, PartialEq, Eq, Structural)]
pub enum Health {
    Clean,
    Issues,
}

/// The base station, its coordinates given as text; none when it broadcasts
/// no position.
#[derive(Debug, Clone, Copy)]
pub struct Base<'a> {
    pub station_id: u16,
    pub position: Option<(&'a str, &'a str)>,
}

/// Whether the summary shows: a worker runs and frames have arrived.
pub fn visible(busy: bool, types: usize) -> (r: bool)
    ensures
        r == (busy && types > 0),
{
    busy && types > 0
}

/// The neutral headline.
pub open spec fn headline(base: Option<Base>, types: nat, frames: nat, rate: Seq<char>) -> Seq<
    char,
> {
    (match base {
        Some(b) => match b.position {
            Some((lat, lon)) => "base "@ + dec(b.station_id as nat) + "  "@ + lat@ + ", "@ + lon@,
            None => "base "@ + dec(b.station_id as nat) + "  (position not set)"@,
        },
        None => "no base station yet"@,
    }) + "   -   "@ + dec(types) + " types, "@ + dec(frames) + " frames   "@ + rate + " kB/s"@
}

/// The framing chip: any CRC failure or stray byte is worth a color.
pub open spec fn chip(crc_failures: nat, garbage_bytes: nat) -> (Seq<char>, Health) {
    if crc_failures == 0 && garbage_bytes == 0 {
        ("framing clean"@, Health::Clean)
    } else if garbage_bytes > 0 {
        (
            dec(crc_failures) + " CRC fails"@ + ", "@ + dec(garbage_bytes) + " garbage bytes"@,
            Health::Issues,
        )
    } else {
        (dec(crc_failures) + " CRC fails"@, Health::Issues)
    }
}

/// The summary's headline, its framing chip and the chip's class; `rate` has
/// one decimal.
pub fn summary_line(
    base: Option<Base>,
    types: usize,
    frames: u64,
    rate: &str,
    crc_failures: u64,
    garbage_bytes: u64,
) -> (r: (String, String, Health))
    ensures
        r.0@ == headline(base, types as nat, frames as nat, rate@),
        r.1@ == chip(crc_failures as nat, garbage_bytes as nat).0,
        r.2 == chip(crc_failures as nat, garbage_bytes as nat).1,
{
    let mut head = match base {
        Some(b) => {
            let mut s = "base ".to_owned();
            push_dec(&mut s, b.station_id as u64);
            match b.position {
                Some((lat, lon)) => {
                    s.append("  ");
                    s.append(lat);
                    s.append(", ");
                    s.append(lon);
                },
                None => {
                    s.append("  (position not set)");
                },
            }
            s
        },
        None => "no base station yet".to_owned(),
    };
    head.append("   -   ");
    push_dec(&mut head, types as u64);
    head.append(" types, ");
    push_dec(&mut head, frames);
    head.append(" frames   ");
    head.append(rate);
    head.append(" kB/s");
    if crc_failures == 0 && garbage_bytes == 0 {
        return (head, "framing clean".to_owned(), Health::Clean);
    }
    let mut c = dec_string(crc_failures);
    c.append(" CRC fails");
    if garbage_bytes > 0 {
        c.append(", ");
        push_dec(&mut c, garbage_bytes);
        c.append(" garbage bytes");
    }
    (head, c, Health::Issues)
}

} // verus!
