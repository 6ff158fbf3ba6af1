//! The event log tab.
use vstd::prelude::*;

use crate::ui::text::{contains_ci, contains_ignore_ascii_case};
use crate::ui::theme::{Color, INK_PRIMARY, INK_SECONDARY};

verus! {

/// Whether a line reports trouble, by the words it uses.
pub open spec fn is_trouble(line: Seq<char>) -> bool {
    contains_ci(line, "error"@) || contains_ci(line, "fail"@) || contains_ci(line, "could not"@)
        || contains_ci(line, "denied"@) || contains_ci(line, "unauthorized"@) || contains_ci(
        line,
        "warning"@,
    ) || contains_ci(line, "overrun"@) || contains_ci(line, "crash"@)
}

/// The ink of a line: trouble steps up to the primary ink, so that a glance
/// lands on it.
pub fn line_ink(line: &str) -> (r: Color)
    ensures
        r == (if is_trouble(line@) {
            INK_PRIMARY
        } else {
            INK_SECONDARY
        }),
{
    if contains_ignore_ascii_case(line, "error") || contains_ignore_ascii_case(line, "fail")
        || contains_ignore_ascii_case(line, "could not") || contains_ignore_ascii_case(
        line,
        "denied",
    ) || contains_ignore_ascii_case(line, "unauthorized") || contains_ignore_ascii_case(
        line,
        "warning",
    ) || contains_ignore_ascii_case(line, "overrun") || contains_ignore_ascii_case(line, "crash") {
        INK_PRIMARY
    } else {
        INK_SECONDARY
    }
}

} // verus!
