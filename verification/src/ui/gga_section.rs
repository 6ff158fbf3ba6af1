//! The position-reporting section: the summary of what is sent, and the
//! editor for a manual position with its offline search.
use vstd::prelude::*;

use crate::ieee::Real64;
use crate::settings::Profile;
use crate::text::{same_text, trim, trimmed};
use crate::vocab::{GgaMode, GgaSource};

verus! {

/// Most hits shown for one query.
pub const RESULT_LIMIT: usize = 8;

/// One search result.
#[derive(Debug)]
pub struct GeoHit {
    pub display: String,
    pub lat: Real64,
    pub lon: Real64,
}

/// What the search remembers between frames.
#[derive(Debug)]
pub struct ViewState {
    pub query: String,
    /// The query that the hits belong to.
    pub resolved_for: String,
    pub hits: Vec<GeoHit>,
    pub selected: usize,
}

impl Default for ViewState {
    fn default() -> (r: ViewState)
        ensures
            r.query@ == Seq::<char>::empty(),
            r.resolved_for@ == Seq::<char>::empty(),
            r.hits@.len() == 0,
            r.selected == 0,
    {
        ViewState {
            query: String::new(),
            resolved_for: String::new(),
            hits: Vec::new(),
            selected: 0,
        }
    }
}

/// The label of the section's disclosure.
pub fn disclosure_label(open: bool) -> (r: &'static str)
    ensures
        r@ == (if open {
            "v GGA position reporting"@
        } else {
            "> GGA position reporting"@
        }),
{
    if open {
        "v GGA position reporting"
    } else {
        "> GGA position reporting"
    }
}

/// A mode as shown.
pub open spec fn mode_words(mode: GgaMode) -> Seq<char> {
    match mode {
        GgaMode::Off => "off"@,
        GgaMode::WhenRequired => "when required"@,
        GgaMode::Always => "always"@,
    }
}

/// A mode as shown.
pub fn mode_label(mode: GgaMode) -> (r: &'static str)
    ensures
        r@ == mode_words(mode),
{
    match mode {
        GgaMode::Off => "off",
        GgaMode::WhenRequired => "when required",
        GgaMode::Always => "always",
    }
}

/// The collapsed section's summary; the coordinates have five decimals. With
/// nothing sent, source and position are moot.
pub fn summary(mode: GgaMode, source: GgaSource, lat: &str, lon: &str) -> (r: String)
    ensures
        r@ == (if mode == GgaMode::Off {
            "off"@
        } else if source == GgaSource::Receiver {
            mode_words(mode) + ", "@ + "receiver"@
        } else {
            mode_words(mode) + ", "@ + "manual "@ + lat@ + ", "@ + lon@
        }),
{
    if mode == GgaMode::Off {
        return "off".to_owned();
    }
    let mut s = mode_label(mode).to_owned();
    s.append(", ");
    if source == GgaSource::Receiver {
        s.append("receiver");
    } else {
        s.append("manual ");
        s.append(lat);
        s.append(", ");
        s.append(lon);
    }
    s
}

/// Whether the caveat of the "when required" mode shows, and whether the
/// manual editor does.
pub fn body(mode: GgaMode, source: GgaSource) -> (r: (bool, bool))
    ensures
        r.0 == (mode == GgaMode::WhenRequired),
        r.1 == (source == GgaSource::Manual),
{
    (mode == GgaMode::WhenRequired, source == GgaSource::Manual)
}

// ---------------------------------------------------------------------
// Search
// ---------------------------------------------------------------------

/// A selection one step further, clamped at both ends; a stale one, past the
/// end of a list that shrank, comes back to the last row.
pub open spec fn stepped(selected: usize, len: usize, down: bool) -> usize {
    if len == 0 {
        0
    } else if down {
        if selected >= len - 1 {
            (len - 1) as usize
        } else {
            (selected + 1) as usize
        }
    } else if selected == 0 {
        0
    } else if selected > len {
        (len - 1) as usize
    } else {
        (selected - 1) as usize
    }
}

/// Arrow-key selection step, clamped at both ends.
pub fn step_selection(selected: usize, len: usize, down: bool) -> (r: usize)
    ensures
        r == stepped(selected, len, down),
{
    if len == 0 {
        0
    } else if down {
        if selected >= len - 1 {
            len - 1
        } else {
            selected + 1
        }
    } else if selected == 0 {
        0
    } else if selected > len {
        len - 1
    } else {
        selected - 1
    }
}

/// However stale the selection was, a key press leaves it on a row.
pub proof fn law_selection_stays_in_the_list(selected: usize, len: usize, down: bool)
    requires
        len > 0,
    ensures
        stepped(selected, len, down) < len,
{
}

/// The row that a selection stands for: a stale one clamps to the last row.
pub open spec fn chosen_row(n: nat, selected: usize) -> int {
    if selected < n {
        selected as int
    } else {
        n - 1
    }
}

/// Coordinates of the selected hit; none without hits.
pub fn hit_coords(hits: &Vec<GeoHit>, selected: usize) -> (r: Option<(Real64, Real64)>)
    ensures
        r == (if hits@.len() == 0 {
            None
        } else {
            let h = hits@[chosen_row(hits@.len(), selected)];
            Some((h.lat, h.lon))
        }),
{
    let n: usize = hits.len();
    if n == 0 {
        return None;
    }
    let i: usize = if selected < n {
        selected
    } else {
        n - 1
    };
    Some((hits[i].lat, hits[i].lon))
}

/// One result row: its name, and its coordinates with four decimals.
pub fn row_label(hit: &GeoHit, lat: &str, lon: &str) -> (r: String)
    ensures
        r@ == hit.display@ + "  ("@ + lat@ + ", "@ + lon@ + ")"@,
{
    let mut s = hit.display.clone();
    s.append("  (");
    s.append(lat);
    s.append(", ");
    s.append(lon);
    s.append(")");
    s
}

/// The arrow keys of a frame. They steer the selection while the search box
/// has the focus and there are hits.
pub fn arrows(view: &mut ViewState, focused: bool, up: bool, down: bool)
    ensures
        *final(view) == (ViewState {
            selected: if focused && old(view).hits@.len() > 0 {
                let n = old(view).hits@.len() as usize;
                let after_up = if up {
                    stepped(old(view).selected, n, false)
                } else {
                    old(view).selected
                };
                if down {
                    stepped(after_up, n, true)
                } else {
                    after_up
                }
            } else {
                old(view).selected
            },
            ..*old(view)
        }),
{
    let n: usize = view.hits.len();
    if !focused || n == 0 {
        return ;
    }
    if up {
        view.selected = step_selection(view.selected, n, false);
    }
    if down {
        view.selected = step_selection(view.selected, n, true);
    }
}

/// Whether the query has to be looked up: it changed since the last lookup.
pub fn needs_lookup(view: &ViewState) -> (r: bool)
    ensures
        r == (view.query@ != view.resolved_for@),
{
    !same_text(view.query.as_str(), view.resolved_for.as_str())
}

/// Take the hits of the current query; the first one is selected.
pub fn take_hits(view: &mut ViewState, hits: Vec<GeoHit>)
    ensures
        final(view).resolved_for@ == old(view).query@,
        *final(view) == (ViewState {
            resolved_for: final(view).resolved_for,
            hits,
            selected: 0,
            ..*old(view)
        }),
{
    view.resolved_for = view.query.clone();
    view.hits = hits;
    view.selected = 0;
}

/// The notice under the search box.
pub fn search_notice(view: &ViewState, database: bool) -> (r: Option<&'static str>)
    ensures
        match r {
            Some(t) => if !database {
                t@
                    == "Offline location database unavailable (see the event log); the coordinate fields above still work."@
            } else {
                view.hits@.len() == 0 && trim(view.query@).len() > 0 && t@ == "No matches."@
            },
            None => database && (view.hits@.len() > 0 || trim(view.query@).len() == 0),
        },
{
    if !database {
        Some(
            "Offline location database unavailable (see the event log); the coordinate fields above still work.",
        )
    } else if view.hits.len() == 0 && !trimmed(view.query.as_str()).is_empty() {
        Some("No matches.")
    } else {
        None
    }
}

/// A gesture that picks a position.
#[derive(Debug, Clone, Copy)]
pub enum Gesture {
    /// Enter in the search box.
    Enter,
    /// A click on a result row.
    Row(usize),
    /// The button that copies the receiver's position.
    Receiver,
}

/// Apply a gesture: pick the position it stands for, if it stands for one,
/// and fill it into the profile. A clicked row is selected.
pub fn manual_editor(
    p: &mut Profile,
    view: &mut ViewState,
    gesture: Gesture,
    receiver: Option<(Real64, Real64)>,
)
    ensures
        *final(view) == (ViewState {
            selected: match gesture {
                Gesture::Row(i) => i,
                _ => old(view).selected,
            },
            ..*old(view)
        }),
        ({
            let hits = old(view).hits@;
            let picked = match gesture {
                Gesture::Receiver => receiver,
                Gesture::Enter => if hits.len() == 0 {
                    None
                } else {
                    let h = hits[chosen_row(hits.len(), old(view).selected)];
                    Some((h.lat, h.lon))
                },
                Gesture::Row(i) => if hits.len() == 0 {
                    None
                } else {
                    let h = hits[chosen_row(hits.len(), i)];
                    Some((h.lat, h.lon))
                },
            };
            match picked {
                Some((lat, lon)) => *final(p) == (Profile {
                    manual_lat: lat,
                    manual_lon: lon,
                    ..*old(p)
                }),
                None => *final(p) == *old(p),
            }
        }),
{
    let picked = match gesture {
        Gesture::Receiver => receiver,
        Gesture::Enter => hit_coords(&view.hits, view.selected),
        Gesture::Row(i) => {
            view.selected = i;
            hit_coords(&view.hits, i)
        },
    };
    if let Some((lat, lon)) = picked {
        p.manual_lat = lat;
        p.manual_lon = lon;
    }
}

} // verus!
