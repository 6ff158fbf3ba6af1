//! Decision core of an NTRIP/RTK diagnostic client.
pub mod audio;
pub mod bus;
pub mod decimal;
pub mod ieee;
pub mod laws;
pub mod legacy;
pub mod logger;
pub mod logging;
pub mod order;
pub mod paths;
pub mod profiles;
pub mod selftest;
pub mod session;
pub mod settings;
pub mod sourcetable;
pub mod span;
pub mod state;
pub mod text;
pub mod ui;
pub mod vocab;
pub mod workers;

use vstd::prelude::*;

use crate::text::{trim, trimmed};

verus! {

pub const VERSION: &'static str = "0.3.0";

/// The product token sent to casters.
pub fn user_agent() -> (r: String)
    ensures
        r@ == "NTRIP OpenNtripClient/"@ + VERSION@,
{
    let mut r = "NTRIP OpenNtripClient/".to_owned();
    r.append(VERSION);
    r
}

pub const REPO_URL: &'static str = "https://github.com/intnsity/OpenNTRIPClient";

pub const RELEASES_URL: &'static str = "https://github.com/intnsity/OpenNTRIPClient/releases";

/// The crash report.
pub fn crash_report(info: &str, backtrace: &str) -> (r: String)
    ensures
        r@ == "Open NTRIP Client v"@ + VERSION@ + " crashed\n\n"@ + info@ + "\n\nbacktrace:\n"@
            + backtrace@ + "\n"@,
{
    let mut r = "Open NTRIP Client v".to_owned();
    r.append(VERSION);
    r.append(" crashed\n\n");
    r.append(info);
    r.append("\n\nbacktrace:\n");
    r.append(backtrace);
    r.append("\n");
    r
}

/// Where a crash report can still be written.
#[derive(Debug, Clone, Copy, PartialEq, Eq, Structural)]
pub enum ReportStep {
    /// Try the log directory.
    TryLogs,
    /// Try beside the executable.
    TryFallback,
    /// It landed in the log directory: leave the marker.
    InLogs,
    /// It landed beside the executable: leave the marker.
    InFallback,
    /// Nothing could be written: leave no marker.
    Lost,
}

/// The next sink for a crash report, given whether the last one took it.
/// Every failure degrades to the next sink.
pub fn write_crash_report(step: ReportStep, written: bool) -> (r: ReportStep)
    ensures
        r == match step {
            ReportStep::TryLogs => if written {
                ReportStep::InLogs
            } else {
                ReportStep::TryFallback
            },
            ReportStep::TryFallback => if written {
                ReportStep::InFallback
            } else {
                ReportStep::Lost
            },
            _ => step,
        },
{
    match step {
        ReportStep::TryLogs => if written {
            ReportStep::InLogs
        } else {
            ReportStep::TryFallback
        },
        ReportStep::TryFallback => if written {
            ReportStep::InFallback
        } else {
            ReportStep::Lost
        },
        _ => step,
    }
}

/// The crash report that the marker of the previous run names, if any.
pub fn take_crash_notice(marker: Option<&str>) -> (r: Option<String>)
    ensures
        match marker {
            Some(m) => match r {
                Some(path) => trim(m@).len() > 0 && path@ == trim(m@),
                None => trim(m@).len() == 0,
            },
            None => r is None,
        },
{
    match marker {
        None => None,
        Some(m) => {
            let path = trimmed(m);
            if path.is_empty() {
                None
            } else {
                Some(path.to_owned())
            }
        },
    }
}

} // verus!
