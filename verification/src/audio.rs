//! The decisions around two one-shot effects: playing the alert sound and
//! opening a page in the browser.
use vstd::prelude::*;

use crate::text::{dec, push_dec, trim, trimmed};

verus! {

/// The file to play: the trimmed path, or nothing when there is none
/// configured.
pub fn alert_path<'a>(path: &'a str) -> (r: Option<&'a str>)
    ensures
        match r {
            Some(p) => p@ == trim(path@) && p@.len() > 0,
            None => trim(path@).len() == 0,
        },
{
    let p = trimmed(path);
    if p.is_empty() {
        None
    } else {
        Some(p)
    }
}

/// What playing `path` comes to, given whether that file exists and what the
/// player reported of it. No path is a silent success; a missing file is
/// reported here, since a player that runs detached cannot report it later.
pub fn play_wav(path: &str, found: bool, played: &Result<(), String>) -> (r: Result<(), String>)
    ensures
        match r {
            Ok(()) => trim(path@).len() == 0 || (found && played is Ok),
            Err(e) => trim(path@).len() > 0 && if found {
                played matches Err(why) && e@ == why@
            } else {
                e@ == "audio file not found: "@ + trim(path@)
            },
        },
{
    match alert_path(path) {
        None => Ok(()),
        Some(p) => {
            if !found {
                let mut e = "audio file not found: ".to_owned();
                e.append(p);
                return Err(e);
            }
            match played {
                Ok(()) => Ok(()),
                Err(why) => Err(why.clone()),
            }
        },
    }
}

/// The event line for an alert that could not be played.
pub fn alert_line(played: &Result<(), String>) -> (r: Option<String>)
    ensures
        match *played {
            Ok(()) => r is None,
            Err(e) => r matches Some(t) && t@ == "Audio alert failed: "@ + e@,
        },
{
    match played {
        Ok(()) => None,
        Err(e) => {
            let mut t = "Audio alert failed: ".to_owned();
            t.append(e.as_str());
            Some(t)
        },
    }
}

/// The players to try, in order.
pub fn players(macos: bool) -> (r: Vec<&'static str>)
    ensures
        macos ==> r@.len() == 1 && r@[0]@ == "afplay"@,
        !macos ==> r@.len() == 2 && r@[0]@ == "aplay"@ && r@[1]@ == "paplay"@,
{
    let mut r: Vec<&'static str> = Vec::new();
    if macos {
        r.push("afplay");
    } else {
        r.push("aplay");
        r.push("paplay");
    }
    r
}

/// The error once every player failed, the last one with this reason.
pub fn no_player(player: &str, reason: &str) -> (r: String)
    ensures
        r@ == "no audio player available ("@ + player@ + ": "@ + reason@ + ")"@,
{
    let mut r = "no audio player available (".to_owned();
    r.append(player);
    r.append(": ");
    r.append(reason);
    r.append(")");
    r
}

/// How an attempt to launch the browser went.
#[derive(Debug)]
pub enum Launch {
    /// The opener was started.
    Spawned,
    /// The opener could not be started.
    SpawnFailed { opener: String, reason: String },
    /// The shell's own answer; above 32 means success.
    ShellCode(i64),
}

/// The program that opens a page.
pub fn opener(macos: bool) -> (r: &'static str)
    ensures
        r@ == (if macos {
            "open"@
        } else {
            "xdg-open"@
        }),
{
    if macos {
        "open"
    } else {
        "xdg-open"
    }
}

/// A signed decimal number.
pub open spec fn signed(n: int) -> Seq<char> {
    if n < 0 {
        "-"@ + dec((-n) as nat)
    } else {
        dec(n as nat)
    }
}

/// What opening `url` comes to.
pub fn open_url(url: &str, launch: &Launch) -> (r: Result<(), String>)
    ensures
        match *launch {
            Launch::Spawned => r is Ok,
            Launch::SpawnFailed { opener, reason } => r matches Err(e) && e@ == opener@ + ": "@
                + reason@,
            Launch::ShellCode(code) => if code > 32 {
                r is Ok
            } else {
                r matches Err(e) && e@ == "ShellExecuteW returned "@ + signed(code as int)
                    + " for "@ + url@
            },
        },
{
    match launch {
        Launch::Spawned => Ok(()),
        Launch::SpawnFailed { opener, reason } => {
            let mut e = opener.clone();
            e.append(": ");
            e.append(reason.as_str());
            Err(e)
        },
        Launch::ShellCode(code) => {
            if *code > 32 {
                return Ok(());
            }
            let mut e = "ShellExecuteW returned ".to_owned();
            let mut number = "".to_owned();
            if *code < 0 {
                number = "-".to_owned();
                push_dec(&mut number, (-(*code as i128)) as u64);
            } else {
                proof {
                    reveal_strlit("");
                }
                push_dec(&mut number, *code as u64);
                assert(number@ =~= dec(*code as nat));
            }
            e.append(number.as_str());
            e.append(" for ");
            e.append(url);
            Err(e)
        },
    }
}

} // verus!
