//! The caster panel: the mountpoint menu, the TLS override, the buttons and
//! the status line.
use vstd::prelude::*;

use crate::bus::NtripStatus;
use crate::settings::Profile;
use crate::sourcetable::{SourceTable, StrRecord};
use crate::span::Span;
use crate::text::{dec, push_dec, texts, trim, trimmed};
use crate::ui::status_strip::{push_seconds, shown_seconds};
use crate::ui::theme::{Color, DANGER, INK_PRIMARY, INK_SECONDARY, SUCCESS, WARNING};

verus! {

// ---------------------------------------------------------------------
// Mountpoint menu
// ---------------------------------------------------------------------

/// A stream's entry in the mountpoint menu: its name, and what it carries.
pub open spec fn menu_text(s: StrRecord) -> Seq<char> {
    if s.format@.len() == 0 {
        s.mountpoint@
    } else {
        s.mountpoint@ + "  ("@ + s.format@ + ", "@ + s.identifier@ + ")"@
    }
}

/// A stream's entry in the mountpoint menu.
pub fn menu_entry(s: &StrRecord) -> (r: String)
    ensures
        r@ == menu_text(*s),
{
    let mut out = s.mountpoint.clone();
    if !s.format.as_str().is_empty() {
        out.append("  (");
        out.append(s.format.as_str());
        out.append(", ");
        out.append(s.identifier.as_str());
        out.append(")");
    }
    out
}

/// What the open menu holds.
#[derive(Debug)]
pub enum MountMenu {
    /// One entry per stream, in the caster's order.
    Streams(Vec<String>),
    /// Two lines saying where streams would come from.
    Empty(&'static str, &'static str),
}

/// The mountpoint menu over the cached table of the profile's caster.
pub fn mountpoint_combo(table: Option<&SourceTable>) -> (r: MountMenu)
    ensures
        match r {
            MountMenu::Streams(entries) => table matches Some(t) && t.strs@.len() > 0 && texts(
                entries@,
            ) == Seq::new(t.strs@.len(), |i: int| menu_text(t.strs@[i])),
            MountMenu::Empty(a, b) => (table matches Some(t) ==> t.strs@.len() == 0) && a@
                == "No sourcetable cached for this caster."@ && b@
                == "Use [Get Sourcetable] first."@,
        },
{
    let empty = MountMenu::Empty(
        "No sourcetable cached for this caster.",
        "Use [Get Sourcetable] first.",
    );
    match table {
        None => empty,
        Some(t) => {
            if t.strs.len() == 0 {
                return empty;
            }
            let mut entries: Vec<String> = Vec::new();
            let mut i: usize = 0;
            while i < t.strs.len()
                invariant
                    i <= t.strs@.len(),
                    entries@.len() == i,
                    forall|k: int| 0 <= k < i ==> (#[trigger] entries@[k])@ == menu_text(t.strs@[k]),
                decreases t.strs.len() - i,
            {
                entries.push(menu_entry(&t.strs[i]));
                i += 1;
            }
            assert(texts(entries@) =~= Seq::new(t.strs@.len(), |k: int| menu_text(t.strs@[k])));
            MountMenu::Streams(entries)
        },
    }
}

/// Whether the menu stays open after a frame: a pick closes it, and so does a
/// click elsewhere, unless the menu only just opened.
pub fn menu_stays_open(
    open: bool,
    was_open: bool,
    picked: bool,
    clicked_elsewhere: bool,
) -> (r: bool)
    ensures
        r == (open && !picked && !(was_open && clicked_elsewhere)),
{
    open && !picked && !(was_open && clicked_elsewhere)
}

// ---------------------------------------------------------------------
// Controls
// ---------------------------------------------------------------------

/// The certificate override cannot outlive TLS: with TLS off it is disarmed,
/// so that it does not spring back when TLS is switched on again. Returns
/// whether the override is offered.
pub fn settle_override(p: &mut Profile) -> (r: bool)
    ensures
        r == old(p).tls,
        *final(p) == (Profile {
            allow_invalid_certs: old(p).tls && old(p).allow_invalid_certs,
            ..*old(p)
        }),
{
    if !p.tls {
        p.allow_invalid_certs = false;
    }
    p.tls
}

/// The panel's buttons.
#[derive(Debug, Clone, Copy)]
pub struct Buttons {
    pub connect_label: &'static str,
    pub connect_enabled: bool,
    pub table_enabled: bool,
}

/// The panel's buttons for a caster host.
pub fn buttons(busy: bool, host: &str) -> (r: Buttons)
    ensures
        r.connect_label@ == (if busy {
            "Disconnect"@
        } else {
            "Connect"@
        }),
        r.connect_enabled == (busy || trim(host@).len() > 0),
        r.table_enabled == (!busy && trim(host@).len() > 0),
{
    let host_ok = !trimmed(host).is_empty();
    Buttons {
        connect_label: if busy {
            "Disconnect"
        } else {
            "Connect"
        },
        connect_enabled: busy || host_ok,
        table_enabled: !busy && host_ok,
    }
}

// ---------------------------------------------------------------------
// Status line
// ---------------------------------------------------------------------

/// The status line's text.
pub open spec fn status_words(status: NtripStatus, stalled_for: Option<Span>, max: u32) -> Seq<
    char,
> {
    match status {
        NtripStatus::Idle => "Not connected"@,
        NtripStatus::Connecting { attempt } => "Connecting (attempt "@ + dec(attempt as nat)
            + ")..."@,
        NtripStatus::WaitingForData => "Connected - waiting for data..."@,
        NtripStatus::Streaming => match stalled_for {
            Some(age) => "Streaming - no data for "@ + shown_seconds(age) + " s"@,
            None => "Streaming"@,
        },
        NtripStatus::ReconnectWait { next_attempt } => "Reconnecting in 10 s (attempt "@ + dec(
            next_attempt as nat,
        ) + " of "@ + dec(max as nat) + ")"@,
        NtripStatus::Stopped { summary, .. } => summary@,
    }
}

/// The status line's ink. The success color must not outlive the data.
pub open spec fn status_ink(status: NtripStatus, stalled_for: Option<Span>) -> Color {
    match status {
        NtripStatus::Idle => INK_SECONDARY,
        NtripStatus::Connecting { .. } => INK_PRIMARY,
        NtripStatus::WaitingForData => INK_PRIMARY,
        NtripStatus::Streaming => if stalled_for is Some {
            WARNING
        } else {
            SUCCESS
        },
        NtripStatus::ReconnectWait { .. } => WARNING,
        NtripStatus::Stopped { failed, .. } => if failed {
            DANGER
        } else {
            INK_SECONDARY
        },
    }
}

/// The status line. `stalled_for` is the silence of a live connection that
/// went quiet past the stall threshold.
pub fn status_text(status: &NtripStatus, stalled_for: Option<Span>, max: u32) -> (r: (
    String,
    Color,
))
    ensures
        r.0@ == status_words(*status, stalled_for, max),
        r.1 == status_ink(*status, stalled_for),
{
    match status {
        NtripStatus::Idle => ("Not connected".to_owned(), INK_SECONDARY),
        NtripStatus::Connecting { attempt } => {
            let mut s = "Connecting (attempt ".to_owned();
            push_dec(&mut s, *attempt as u64);
            s.append(")...");
            (s, INK_PRIMARY)
        },
        NtripStatus::WaitingForData => (
            "Connected - waiting for data...".to_owned(),
            INK_PRIMARY,
        ),
        NtripStatus::Streaming => match stalled_for {
            Some(age) => {
                let mut s = "Streaming - no data for ".to_owned();
                push_seconds(&mut s, age);
                s.append(" s");
                (s, WARNING)
            },
            None => ("Streaming".to_owned(), SUCCESS),
        },
        NtripStatus::ReconnectWait { next_attempt } => {
            let mut s = "Reconnecting in 10 s (attempt ".to_owned();
            push_dec(&mut s, *next_attempt as u64);
            s.append(" of ");
            push_dec(&mut s, max as u64);
            s.append(")");
            (s, WARNING)
        },
        NtripStatus::Stopped { summary, failed } => (
            summary.clone(),
            if *failed {
                DANGER
            } else {
                INK_SECONDARY
            },
        ),
    }
}

} // verus!
