//! Where the program's files lie: all of them under one base directory.
use vstd::prelude::*;

verus! {

/// `name` inside directory `base`: with the system's separator between them,
/// unless `base` already ends in it, or in the forward slash, which every
/// system takes.
pub open spec fn joined_path(base: Seq<char>, separator: char, name: Seq<char>) -> Seq<char> {
    if base.len() == 0 {
        name
    } else if base.last() == separator || base.last() == '/' {
        base + name
    } else {
        base.push(separator) + name
    }
}

/// `name` inside directory `base`, on a system with this separator.
pub fn join(base: &str, separator: char, name: &str) -> (r: String)
    ensures
        r@ == joined_path(base@, separator, name@),
{
    let n: usize = base.unicode_len();
    let mut r = base.to_owned();
    if n > 0 {
        let last = base.get_char(n - 1);
        if last != separator && last != '/' {
            r.push(separator);
        }
    }
    r.append(name);
    assert(base@.len() == 0 ==> r@ =~= name@);
    r
}

pub fn settings_file(base: &str, separator: char) -> (r: String)
    ensures
        r@ == joined_path(base@, separator, "settings.toml"@),
{
    join(base, separator, "settings.toml")
}

/// Where new settings are written before they replace the old file.
pub fn settings_temporary(base: &str, separator: char) -> (r: String)
    ensures
        r@ == joined_path(base@, separator, "settings.toml.tmp"@),
{
    join(base, separator, "settings.toml.tmp")
}

/// Where a settings file that cannot be parsed is preserved.
pub fn settings_preserved(base: &str, separator: char) -> (r: String)
    ensures
        r@ == joined_path(base@, separator, "settings.toml.bad"@),
{
    join(base, separator, "settings.toml.bad")
}

pub fn logs_dir(base: &str, separator: char) -> (r: String)
    ensures
        r@ == joined_path(base@, separator, "Logs"@),
{
    join(base, separator, "Logs")
}

pub fn nmea_dir(base: &str, separator: char) -> (r: String)
    ensures
        r@ == joined_path(base@, separator, "NMEA"@),
{
    join(base, separator, "NMEA")
}

/// Raw correction captures.
pub fn captures_dir(base: &str, separator: char) -> (r: String)
    ensures
        r@ == joined_path(base@, separator, "Captures"@),
{
    join(base, separator, "Captures")
}

/// The marker that a crash leaves for the next run. It lies in the base
/// directory, so that it survives a log directory that cannot be made.
pub fn crash_marker(base: &str, separator: char) -> (r: String)
    ensures
        r@ == joined_path(base@, separator, "crash-pending.txt"@),
{
    join(base, separator, "crash-pending.txt")
}

} // verus!
