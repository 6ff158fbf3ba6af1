//! The bottom tab strip, with its mark for a caster response that nobody has
//! looked at yet.
use vstd::prelude::*;

use crate::vocab::BottomTab;

verus! {

/// One tab of the strip.
#[derive(Debug, Clone, Copy)]
pub struct TabButton {
    pub tab: BottomTab,
    pub label: &'static str,
    pub hover: &'static str,
    pub active: bool,
    /// Whether it wears the attention mark.
    pub attention: bool,
}

pub open spec fn tab_label(tab: BottomTab) -> Seq<char> {
    match tab {
        BottomTab::Events => "Event log"@,
        BottomTab::Conn => "Connection log"@,
        BottomTab::Stream => "Stream detail"@,
        BottomTab::Sourcetable => "Sourcetable"@,
    }
}

pub open spec fn tab_hover(tab: BottomTab) -> Seq<char> {
    match tab {
        BottomTab::Events => "Application events"@,
        BottomTab::Conn => "Verbatim protocol exchange for the current session"@,
        BottomTab::Stream => "Live RTCM message statistics and decoded base data"@,
        BottomTab::Sourcetable => "Browse the fetched sourcetable (filter, sort, pick a mount)"@,
    }
}

/// Whether a tab wears the attention mark: only the connection log, while it
/// is not the active tab and a response waits there unseen.
pub open spec fn wants_attention(
    tab: BottomTab,
    active: BottomTab,
    seen: u64,
    captured: u64,
) -> bool {
    tab == BottomTab::Conn && captured > seen && active != tab
}

fn tab_button(tab: BottomTab, active: BottomTab, seen: u64, captured: u64) -> (r: TabButton)
    ensures
        r.tab == tab,
        r.label@ == tab_label(tab),
        r.active == (active == tab),
        r.attention == wants_attention(tab, active, seen, captured),
        r.hover@ == (if r.attention {
            "An unrecognized caster response was captured - open to inspect it"@
        } else {
            tab_hover(tab)
        }),
{
    let attention = tab == BottomTab::Conn && captured > seen && active != tab;
    let (label, hover) = match tab {
        BottomTab::Events => ("Event log", "Application events"),
        BottomTab::Conn => (
            "Connection log",
            "Verbatim protocol exchange for the current session",
        ),
        BottomTab::Stream => (
            "Stream detail",
            "Live RTCM message statistics and decoded base data",
        ),
        BottomTab::Sourcetable => (
            "Sourcetable",
            "Browse the fetched sourcetable (filter, sort, pick a mount)",
        ),
    };
    TabButton {
        tab,
        label,
        hover: if attention {
            "An unrecognized caster response was captured - open to inspect it"
        } else {
            hover
        },
        active: active == tab,
        attention,
    }
}

/// The strip's tabs. All four are always offered.
pub fn strip(active: BottomTab, seen: u64, captured: u64) -> (r: [TabButton; 4])
    ensures
        r@[0].tab == BottomTab::Events,
        r@[1].tab == BottomTab::Conn,
        r@[2].tab == BottomTab::Stream,
        r@[3].tab == BottomTab::Sourcetable,
        forall|i: int|
            0 <= i < 4 ==> {
                let b = #[trigger] r@[i];
                &&& b.label@ == tab_label(b.tab)
                &&& b.active == (active == b.tab)
                &&& b.attention == wants_attention(b.tab, active, seen, captured)
                &&& b.hover@ == (if b.attention {
                    "An unrecognized caster response was captured - open to inspect it"@
                } else {
                    tab_hover(b.tab)
                })
            },
{
    [
        tab_button(BottomTab::Events, active, seen, captured),
        tab_button(BottomTab::Conn, active, seen, captured),
        tab_button(BottomTab::Stream, active, seen, captured),
        tab_button(BottomTab::Sourcetable, active, seen, captured),
    ]
}

/// What counts as seen after a frame.
pub open spec fn seen_after(active: BottomTab, seen: u64, captured: u64) -> u64 {
    if active == BottomTab::Conn {
        captured
    } else {
        seen
    }
}

/// Showing the connection log acknowledges everything captured so far.
pub fn acknowledge(active: BottomTab, seen: u64, captured: u64) -> (r: u64)
    ensures
        r == seen_after(active, seen, captured),
{
    if active == BottomTab::Conn {
        captured
    } else {
        seen
    }
}

/// Once the connection log has been shown, the mark is gone until another
/// response is captured, whichever tab comes next.
pub proof fn law_opening_the_log_clears_the_mark(
    seen: u64,
    captured: u64,
    tab: BottomTab,
    next: BottomTab,
)
    ensures
        !wants_attention(tab, next, seen_after(BottomTab::Conn, seen, captured), captured),
{
}

} // verus!
