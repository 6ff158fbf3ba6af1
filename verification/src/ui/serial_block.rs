//! The receiver panel: the port menu, the choices of the link settings, and
//! the status line.
use vstd::prelude::*;

use crate::bus::SerialStatus;
use crate::settings::{data_bits_choices, novatel_rate_choices, stop_bits_choices};
use crate::state::SerialUi;
use crate::text::{dec, push_dec, same_text, trim, trimmed};
use crate::ui::theme::{Color, DANGER, INK_SECONDARY, SUCCESS};
use crate::workers::serial::port_texts;

verus! {

/// The offered bit rates.
pub fn bauds() -> (r: [u32; 7])
    ensures
        r@ == seq![2_400u32, 4_800, 9_600, 19_200, 38_400, 57_600, 115_200],
{
    let r: [u32; 7] = [2_400, 4_800, 9_600, 19_200, 38_400, 57_600, 115_200];
    assert(r@ =~= seq![2_400u32, 4_800, 9_600, 19_200, 38_400, 57_600, 115_200]);
    r
}

/// The offered data bits.
pub fn data_bits() -> (r: [u8; 2])
    ensures
        r@ == data_bits_choices(),
{
    let r: [u8; 2] = [7, 8];
    assert(r@ =~= data_bits_choices());
    r
}

/// The offered stop bits.
pub fn stop_bits() -> (r: [u8; 2])
    ensures
        r@ == stop_bits_choices(),
{
    let r: [u8; 2] = [1, 2];
    assert(r@ =~= stop_bits_choices());
    r
}

/// The offered message rates of an auto-configured receiver, in Hz.
pub fn novatel_rates() -> (r: [u8; 3])
    ensures
        r@ == novatel_rate_choices(),
{
    let r: [u8; 3] = [1, 5, 10];
    assert(r@ =~= novatel_rate_choices());
    r
}

/// Index of the first port of that name.
pub open spec fn port_named(ports: Seq<(Seq<char>, Seq<char>)>, name: Seq<char>) -> Option<int>
    decreases ports.len(),
{
    if ports.len() == 0 {
        None
    } else {
        match port_named(ports.drop_last(), name) {
            Some(i) => Some(i),
            None => if ports.last().0 == name {
                Some(ports.len() - 1)
            } else {
                None
            },
        }
    }
}

/// The menu's ports: those present, and the configured one even while it is
/// unplugged, so that it need not be picked again.
pub open spec fn offered(ports: Seq<(Seq<char>, Seq<char>)>, current: Seq<char>) -> Seq<
    (Seq<char>, Seq<char>),
> {
    if current.len() > 0 && port_named(ports, current) is None {
        ports.push((current, "not present"@))
    } else {
        ports
    }
}

/// A port as shown: its name, and its label if it has one.
pub open spec fn port_line(port: (Seq<char>, Seq<char>)) -> Seq<char> {
    if port.1.len() == 0 {
        port.0
    } else {
        port.0 + " - "@ + port.1
    }
}

/// A port as shown.
pub fn port_text(name: &str, label: &str) -> (r: String)
    ensures
        r@ == port_line((name@, label@)),
{
    let mut s = name.to_owned();
    if !label.is_empty() {
        s.append(" - ");
        s.append(label);
    }
    s
}

/// What the port menu shows.
#[derive(Debug)]
pub struct PortMenu {
    pub items: Vec<(String, String)>,
    pub selected: String,
}

fn find_port(ports: &Vec<(String, String)>, name: &str) -> (r: Option<usize>)
    ensures
        match r {
            Some(i) => i < ports@.len() && port_named(port_texts(ports@), name@) == Some(i as int),
            None => port_named(port_texts(ports@), name@) is None,
        },
{
    let ghost all = port_texts(ports@);
    let mut found: Option<usize> = None;
    let mut i: usize = 0;
    assert(all.take(0) =~= Seq::<(Seq<char>, Seq<char>)>::empty());
    while i < ports.len()
        invariant
            all == port_texts(ports@),
            i <= ports@.len(),
            match found {
                Some(j) => j < i && port_named(all.take(i as int), name@) == Some(j as int),
                None => port_named(all.take(i as int), name@) is None,
            },
        decreases ports.len() - i,
    {
        assert(all.take(i + 1).drop_last() =~= all.take(i as int));
        assert(all.take(i + 1).last() == (ports@[i as int].0@, ports@[i as int].1@));
        if found.is_none() && same_text(ports[i].0.as_str(), name) {
            found = Some(i);
        }
        i += 1;
    }
    assert(all.take(i as int) =~= all);
    found
}

/// The port menu for the ports found at the last scan and the configured one.
/// The selected text is that of the first port of the configured name.
pub fn port_combo(ports: &Vec<(String, String)>, current: &str) -> (r: PortMenu)
    ensures
        port_texts(r.items@) == offered(port_texts(ports@), current@),
        r.selected@ == match port_named(port_texts(r.items@), current@) {
            Some(i) => port_line((r.items@[i].0@, r.items@[i].1@)),
            None => current@,
        },
{
    let mut items: Vec<(String, String)> = Vec::new();
    let mut i: usize = 0;
    while i < ports.len()
        invariant
            i <= ports@.len(),
            items@.len() == i,
            forall|j: int|
                0 <= j < i ==> (#[trigger] items@[j]).0@ == ports@[j].0@ && items@[j].1@
                    == ports@[j].1@,
        decreases ports.len() - i,
    {
        items.push((ports[i].0.clone(), ports[i].1.clone()));
        i += 1;
    }
    assert(port_texts(items@) =~= port_texts(ports@));
    if !current.is_empty() && find_port(&items, current).is_none() {
        items.push((current.to_owned(), "not present".to_owned()));
        assert(port_texts(items@) =~= port_texts(ports@).push((current@, "not present"@)));
    }
    let selected = match find_port(&items, current) {
        Some(k) => port_text(items[k].0.as_str(), items[k].1.as_str()),
        None => current.to_owned(),
    };
    PortMenu { items, selected }
}

/// The link button: its label, and whether it can be pressed.
pub fn link_button(connected: bool, port: &str) -> (r: (&'static str, bool))
    ensures
        r.0@ == (if connected {
            "Disconnect"@
        } else {
            "Connect"@
        }),
        r.1 == (connected || trim(port@).len() > 0),
{
    let label = if connected {
        "Disconnect"
    } else {
        "Connect"
    };
    (label, connected || !trimmed(port).is_empty())
}

/// The status line's text, without the overrun count.
pub open spec fn link_words(s: SerialStatus) -> Seq<char> {
    match s {
        SerialStatus::Connected { port, detail } => "Connected: "@ + port@ + " ("@ + detail@
            + ")"@,
        SerialStatus::Disconnected { reason } => if reason@.len() == 0 {
            "Not connected"@
        } else {
            reason@
        },
    }
}

/// The status line, with the overrun count once there is one.
pub fn status_line(s: &SerialUi) -> (r: (String, Color))
    ensures
        r.0@ == (if s.overruns > 0 {
            link_words(s.status) + "  |  overruns: "@ + dec(s.overruns as nat)
        } else {
            link_words(s.status)
        }),
        r.1 == match s.status {
            SerialStatus::Connected { .. } => SUCCESS,
            SerialStatus::Disconnected { reason } => if reason@.len() == 0 {
                INK_SECONDARY
            } else {
                DANGER
            },
        },
{
    let (mut line, color) = match &s.status {
        SerialStatus::Connected { port, detail } => {
            let mut t = "Connected: ".to_owned();
            t.append(port.as_str());
            t.append(" (");
            t.append(detail.as_str());
            t.append(")");
            (t, SUCCESS)
        },
        SerialStatus::Disconnected { reason } => {
            if reason.as_str().is_empty() {
                ("Not connected".to_owned(), INK_SECONDARY)
            } else {
                (reason.clone(), DANGER)
            }
        },
    };
    if s.overruns > 0 {
        line.append("  |  overruns: ");
        push_dec(&mut line, s.overruns);
    }
    (line, color)
}

} // verus!
