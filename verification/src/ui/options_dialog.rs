//! The options dialog's texts.
use vstd::prelude::*;

verus! {

/// The last update check, as shown.
pub fn last_checked<'a>(last: &'a str) -> (r: &'a str)
    ensures
        r@ == (if last@.len() == 0 {
            "never"@
        } else {
            last@
        }),
{
    if last.is_empty() {
        "never"
    } else {
        last
    }
}

/// The event line for a failed sound test.
pub fn audio_test_line(played: &Result<(), String>) -> (r: Option<String>)
    ensures
        match *played {
            Ok(()) => r is None,
            Err(e) => r matches Some(t) && t@ == "Audio test failed: "@ + e@,
        },
{
    match played {
        Ok(()) => None,
        Err(e) => {
            let mut t = "Audio test failed: ".to_owned();
            t.append(e.as_str());
            Some(t)
        },
    }
}

} // verus!
