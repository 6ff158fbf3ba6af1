//! The about dialog's contents.
use vstd::prelude::*;

verus! {

/// The embedded components and their license expressions.
pub open spec fn notices() -> Seq<(Seq<char>, Seq<char>)> {
    seq![
        ("egui / eframe / egui_plot (GUI)"@, "MIT OR Apache-2.0"@),
        ("serialport (receiver I/O)"@, "MPL-2.0"@),
        ("rustls (TLS)"@, "Apache-2.0 OR ISC OR MIT"@),
        ("ring (cryptography)"@, "Apache-2.0 AND ISC"@),
        ("webpki-roots (CA roots)"@, "CDLA-Permissive-2.0"@),
        ("serde / toml (settings)"@, "MIT OR Apache-2.0"@),
        ("Hack / Noto Emoji fonts"@, "OFL-1.1"@),
        ("Ubuntu-Light font"@, "UFL-1.0"@),
        ("GeoNames city data"@, "CC BY 4.0"@),
        ("US Census ZIP centroids"@, "Public domain"@),
    ]
}

/// The embedded components and their license expressions.
pub fn third_party() -> (r: Vec<(&'static str, &'static str)>)
    ensures
        r@.len() == notices().len(),
        forall|i: int|
            0 <= i < r@.len() ==> (#[trigger] r@[i]).0@ == notices()[i].0 && r@[i].1@
                == notices()[i].1,
{
    let mut r: Vec<(&'static str, &'static str)> = Vec::new();
    r.push(("egui / eframe / egui_plot (GUI)", "MIT OR Apache-2.0"));
    r.push(("serialport (receiver I/O)", "MPL-2.0"));
    r.push(("rustls (TLS)", "Apache-2.0 OR ISC OR MIT"));
    r.push(("ring (cryptography)", "Apache-2.0 AND ISC"));
    r.push(("webpki-roots (CA roots)", "CDLA-Permissive-2.0"));
    r.push(("serde / toml (settings)", "MIT OR Apache-2.0"));
    r.push(("Hack / Noto Emoji fonts", "OFL-1.1"));
    r.push(("Ubuntu-Light font", "UFL-1.0"));
    r.push(("GeoNames city data", "CC BY 4.0"));
    r.push(("US Census ZIP centroids", "Public domain"));
    r
}

/// The event line when a link could not be opened.
pub fn link_failed(opened: &Result<(), String>) -> (r: Option<String>)
    ensures
        match *opened {
            Ok(()) => r is None,
            Err(e) => r matches Some(t) && t@ == "Could not open browser: "@ + e@,
        },
{
    match opened {
        Ok(()) => None,
        Err(e) => {
            let mut t = "Could not open browser: ".to_owned();
            t.append(e.as_str());
            Some(t)
        },
    }
}

} // verus!
