//! Laws of the caster side's decisions: when to send a position, when to come
//! back, what to say of an end, and whom to dial.
use vstd::prelude::*;

use crate::laws::caster::usable;
use crate::laws::{lemma_mentions, lemma_mentions_first, mentions};
use crate::session::{CloseReason, GgaPolicy, Transport};
use crate::span::Span;
use crate::text::dec;
use crate::vocab::{GgaMode, GgaSource};
use crate::workers::dial::{
    await_cancellable, helper_error, resolve_error, Awaited, DialStep, Dialer, Polled,
};
use crate::workers::ntrip::{
    close_event_line, close_summary, fmt_bytes, fmt_duration, gga_hint, gga_plan, gga_policy,
    manual_position_set, mib_crossed, no_reconnect_line, ordinal_times,
    reconnect_notice, should_reconnect, traffic_milestone, transient, NtripJob, ReconnectPolicy,
};
use crate::workers::tls::{
    handshake_gate, handshake_round, server_name_outcome, session_info, HandshakeIo, TlsFail,
    TlsInfo,
};
use crate::workers::{CorrQueue, PushOutcome, TimedPop};

verus! {

/// A position is withheld only where that is chosen: always in the one mode,
/// and in the middle one where the table says that the stream wants none. What
/// the table does not say counts as wanted.
pub proof fn law_positions_are_sent_unless_unwanted(
    mode: GgaMode,
    requires_gga: Option<bool>,
    r: GgaPolicy,
)
    requires
        call_ensures(gga_policy, (mode, requires_gga), r),
    ensures
        r == GgaPolicy::Off <==> mode == GgaMode::Off,
        r == GgaPolicy::Always <==> mode == GgaMode::Always,
        mode == GgaMode::WhenRequired ==> (r matches GgaPolicy::WhenRequired { stream_requires }
            && (stream_requires <==> requires_gga != Some(false))),
{
}

/// A manual position counts as set where it is a place on the earth.
pub proof fn law_manual_position_must_be_usable(
    lat: crate::ieee::Real64,
    lon: crate::ieee::Real64,
    r: bool,
)
    requires
        call_ensures(manual_position_set, (lat, lon), r),
    ensures
        r <==> usable(lat, lon),
{
}

/// The plan that is told says what will be done: nothing on a raw stream,
/// nothing where positions are off, and else the chosen source and whether it
/// has a position yet.
pub proof fn law_plan_says_what_is_sent(
    transport: Transport,
    mode: GgaMode,
    requires_gga: Option<bool>,
    source: GgaSource,
    ready: bool,
    manual_set: bool,
    r: &'static str,
    sent: GgaPolicy,
)
    requires
        call_ensures(gga_plan, (transport, mode, requires_gga, source, ready, manual_set), r),
        call_ensures(gga_policy, (mode, requires_gga), sent),
    ensures
        ({
            let on = sent == GgaPolicy::Always || sent == GgaPolicy::WhenRequired {
                stream_requires: true,
            };
            &&& transport == Transport::RawTcp ==> r@ == "GGA not applicable (raw TCP)"@
            &&& transport == Transport::Ntrip && !on ==> r@ == "GGA off"@
            &&& transport == Transport::Ntrip && on ==> match source {
                GgaSource::Manual => if manual_set {
                    mentions(r@, "sending"@) && mentions(r@, "manual position"@)
                } else {
                    mentions(r@, "manual position is not set"@)
                },
                GgaSource::Receiver => mentions(r@, "receiver"@) && (ready ==> mentions(
                    r@,
                    "sending"@,
                )) && (!ready ==> mentions(r@, "will send"@)),
            }
        }),
{
    reveal_strlit("sending GGA every 10 s (manual position)");
    reveal_strlit("GGA wanted but the manual position is not set - edit the profile");
    reveal_strlit("sending GGA every 10 s (receiver passthrough)");
    reveal_strlit("will send receiver GGA every 10 s (none until the receiver supplies a fix)");
    reveal_strlit("sending");
    reveal_strlit("will send");
    reveal_strlit("manual position");
    reveal_strlit("manual position is not set");
    reveal_strlit("receiver");
    let a = "sending GGA every 10 s (manual position)"@;
    assert(a.take(7) =~= "sending"@);
    lemma_mentions_first(a, "sending"@);
    assert(a.subrange(24int, 24int + "manual position"@.len()) =~= "manual position"@);
    let b = "GGA wanted but the manual position is not set - edit the profile"@;
    assert(b.subrange(19int, 19int + "manual position is not set"@.len())
        =~= "manual position is not set"@);
    let c = "sending GGA every 10 s (receiver passthrough)"@;
    assert(c.take(7) =~= "sending"@);
    lemma_mentions_first(c, "sending"@);
    assert(c.subrange(24int, 24int + "receiver"@.len()) =~= "receiver"@);
    let d = "will send receiver GGA every 10 s (none until the receiver supplies a fix)"@;
    assert(d.take(9) =~= "will send"@);
    lemma_mentions_first(d, "will send"@);
    assert(d.subrange(10int, 10int + "receiver"@.len()) =~= "receiver"@);
}

/// An end is worth a new try where another try can end differently: what the
/// caster refused, what it does not have and what the user asked for is not;
/// an answer that was not understood is, as long as no whole line of it came.
pub proof fn law_ends_worth_a_new_try(
    reason: &CloseReason,
    r: bool,
    auto: bool,
    done: u32,
    max: u32,
    again: bool,
)
    requires
        call_ensures(transient, (reason,), r),
        call_ensures(should_reconnect, (reason, auto, done, max), again),
    ensures
        match *reason {
            CloseReason::Unauthorized => !r,
            CloseReason::MountpointNotFound { .. } => !r,
            CloseReason::Cancelled => !r,
            CloseReason::UnknownResponse { raw } => r <==> (forall|i: int|
                0 <= i < raw@.len() ==> #[trigger] raw@[i] != 10),
            _ => r,
        },
        again <==> r && auto && done < max,
{
    if let CloseReason::UnknownResponse { raw } = *reason {
        if r {
            assert forall|i: int| 0 <= i < raw@.len() implies #[trigger] raw@[i] != 10 by {
                assert(raw@.contains(raw@[i]));
            }
        }
    }
}

/// A request without a mountpoint is one for the table; a raw stream never is.
/// Only one policy comes back by itself.
pub proof fn law_requests_are_told_apart(job: &NtripJob, r: bool, p: ReconnectPolicy, e: bool)
    requires
        call_ensures(NtripJob::is_table_request, (job,), r),
        call_ensures(ReconnectPolicy::enabled, (p,), e),
    ensures
        r <==> job.transport != Transport::RawTcp && job.mountpoint@.len() == 0,
        p == ReconnectPolicy::Auto ==> e,
        p == ReconnectPolicy::OptionsOff || p == ReconnectPolicy::OneShot ==> !e,
{
}

/// A mebibyte is told when it fills, and each of them once: a total that goes
/// up in steps crosses as many as it would at once.
pub proof fn law_mebibytes_are_told_as_they_fill(before: u64, after: u64, r: Option<u64>)
    requires
        call_ensures(mib_crossed, (before, after), r),
    ensures
        r matches Some(n) ==> before < n * 1_048_576 <= after < (n + 1) * 1_048_576,
        r is None && before <= after ==> forall|n: int|
            !(before < #[trigger] (n * 1_048_576) <= after),
{
    assert forall|n: int| r is None && before <= after implies !(before < #[trigger] (n
        * 1_048_576) <= after) by {}
}

proof fn lemma_traffic_line(d: Seq<char>)
    ensures
        mentions("Received "@ + d + " MiB"@, d + " MiB"@),
{
    let t = "Received "@ + d + " MiB"@;
    let n = "Received "@.len() as int;
    assert(t.subrange(n, n + (d + " MiB"@).len()) =~= d + " MiB"@);
}

proof fn lemma_traffic_words()
    ensures
        mentions("Received 10 kB (stream healthy)"@, "10 kB"@),
{
    reveal_strlit("Received 10 kB (stream healthy)");
    reveal_strlit("10 kB");
    let t = "Received 10 kB (stream healthy)"@;
    assert(t.subrange(9int, 9int + "10 kB"@.len()) =~= "10 kB"@);
}

/// What is told of the traffic is that a mark was passed: a mebibyte before a
/// hundred kilobytes, these before ten.
pub proof fn law_traffic_marks(before: u64, after: u64, r: Option<String>, mib: Option<u64>)
    requires
        call_ensures(traffic_milestone, (before, after), r),
        call_ensures(mib_crossed, (before, after), mib),
    ensures
        mib matches Some(n) ==> (r matches Some(t) && mentions(t@, dec(n as nat) + " MiB"@)),
        mib is None && before < 100_000 && after >= 100_000 ==> (r matches Some(t) && t@
            == "Received 100 kB"@),
        mib is None && before < 10_000 && 10_000 <= after < 100_000 ==> (r matches Some(t)
            && mentions(t@, "10 kB"@)),
        mib is None && (before >= 100_000 || after < 10_000 || 10_000 <= before && after
            < 100_000) ==> r is None,
{
    let text = crate::workers::ntrip::milestone_text(before, after);
    assert(crate::workers::ntrip::opt_text(r) == text);
    match mib {
        Some(n) => {
            let d = dec(n as nat);
            assert(text == Some("Received "@ + d + " MiB"@));
            lemma_traffic_line(d);
        },
        None => {
            lemma_traffic_words();
        },
    }
}

/// A count of bytes is told in bytes below a thousand, in kilobytes below a
/// million, and in megabytes from there on.
pub proof fn law_byte_counts_have_units(n: u64, r: String)
    requires
        call_ensures(fmt_bytes, (n,), r),
    ensures
        n < 1000 ==> r@ == dec(n as nat) + " B"@,
        1000 <= n < 1_000_000 ==> r@.skip(r@.len() - 3) == " kB"@,
        1_000_000 <= n ==> r@.skip(r@.len() - 3) == " MB"@,
{
    reveal_strlit(" kB");
    reveal_strlit(" MB");
    if 1000 <= n < 1_000_000 {
        assert(r@.skip(r@.len() - 3) =~= " kB"@);
    }
    if 1_000_000 <= n {
        assert(r@.skip(r@.len() - 3) =~= " MB"@);
    }
}

/// An end is told in words of its own: each reason in other words, and the
/// ones that know more say it.
pub proof fn law_ends_are_told(reason: &CloseReason, mount: &str, r: String)
    requires
        call_ensures(close_summary, (reason, mount), r),
    ensures
        match *reason {
            CloseReason::Unauthorized => mentions(r@, "username or password"@),
            CloseReason::MountpointNotFound { .. } => mentions(r@, mount@) && mentions(
                r@,
                "not found"@,
            ),
            CloseReason::UnknownResponse { raw } => if raw@.len() == 0 {
                mentions(r@, "before any response"@)
            } else {
                mentions(r@, dec(raw@.len()) + " bytes"@)
            },
            CloseReason::FirstResponseTimeout => mentions(r@, "no response"@),
            CloseReason::SourcetableTimeout => mentions(r@, "Sourcetable"@),
            CloseReason::StreamSilence => mentions(r@, "no data received"@),
            CloseReason::StreamCorrupt { detail } => mentions(r@, detail@) && mentions(
                r@,
                "corrupted"@,
            ),
            CloseReason::RemoteClosed => mentions(r@, "closed by the caster"@),
            CloseReason::Cancelled => mentions(r@, "by user"@),
        },
{
    let e = Seq::<char>::empty();
    match *reason {
        CloseReason::Unauthorized => {
            reveal_strlit("Invalid username or password");
            reveal_strlit("username or password");
            assert(r@.subrange(8int, 8int + "username or password"@.len())
                =~= "username or password"@);
        },
        CloseReason::MountpointNotFound { .. } => {
            let b = "' not found: the caster returned its sourcetable instead"@;
            reveal_strlit("' not found: the caster returned its sourcetable instead");
            reveal_strlit("not found");
            lemma_mentions("Mountpoint '"@, mount@, b);
            lemma_mentions("Mountpoint '"@ + mount@ + b.take(2), "not found"@, b.skip(11));
            assert("Mountpoint '"@ + mount@ + b.take(2) + "not found"@ + b.skip(11) =~= r@);
        },
        CloseReason::UnknownResponse { raw } => {
            if raw@.len() == 0 {
                reveal_strlit("Connection closed before any response from the caster");
                reveal_strlit("before any response");
                assert(r@.subrange(18int, 18int + "before any response"@.len())
                    =~= "before any response"@);
            } else {
                let a = "Unexpected response from caster ("@;
                let d = dec(raw@.len());
                reveal_strlit(" bytes)");
                reveal_strlit(" bytes");
                lemma_mentions(a, d + " bytes"@, seq![')']);
                assert(" bytes)"@ =~= " bytes"@ + seq![')']);
                assert(a + (d + " bytes"@) + seq![')'] =~= r@);
            }
        },
        CloseReason::FirstResponseTimeout => {
            reveal_strlit("Connection timed out: no response from the caster");
            reveal_strlit("no response");
            assert(r@.subrange(22int, 22int + "no response"@.len()) =~= "no response"@);
        },
        CloseReason::SourcetableTimeout => {
            reveal_strlit("Sourcetable download timed out");
            reveal_strlit("Sourcetable");
            assert(r@.take(11) =~= "Sourcetable"@);
            lemma_mentions_first(r@, "Sourcetable"@);
        },
        CloseReason::StreamSilence => {
            reveal_strlit("Data timeout: no data received for 30 seconds");
            reveal_strlit("no data received");
            assert(r@.subrange(14int, 14int + "no data received"@.len()) =~= "no data received"@);
        },
        CloseReason::StreamCorrupt { detail } => {
            reveal_strlit("Stream corrupted: ");
            reveal_strlit("corrupted");
            lemma_mentions("Stream corrupted: "@, detail@, e);
            assert("Stream corrupted: "@ + detail@ + e =~= r@);
            assert(r@.subrange(7int, 7int + "corrupted"@.len()) =~= "corrupted"@);
        },
        CloseReason::RemoteClosed => {
            reveal_strlit("Connection closed by the caster");
            reveal_strlit("closed by the caster");
            assert(r@.subrange(11int, 11int + "closed by the caster"@.len())
                =~= "closed by the caster"@);
        },
        CloseReason::Cancelled => {
            reveal_strlit("Disconnected by user");
            reveal_strlit("by user");
            assert(r@.subrange(13int, 13int + "by user"@.len()) =~= "by user"@);
        },
    }
}

/// The line of an end tells its reason, then how long the connection was up,
/// then what it brought, if it brought anything.
pub proof fn law_end_lines_add_up(
    reason: &CloseReason,
    mount: &str,
    up: Span,
    bytes: u64,
    r: String,
    why: String,
    long: String,
    much: String,
)
    requires
        call_ensures(close_event_line, (reason, mount, up, bytes), r),
        call_ensures(close_summary, (reason, mount), why),
        call_ensures(fmt_duration, (up,), long),
        call_ensures(fmt_bytes, (bytes,), much),
    ensures
        r@.take(why@.len() as int) == why@,
        mentions(r@.skip(why@.len() as int), long@),
        bytes > 0 ==> mentions(r@.skip((why@.len() + long@.len()) as int), much@),
        bytes == 0 ==> r@.len() == why@.len() + 8 + long@.len() + 1,
{
    reveal_strlit(" (after ");
    reveal_strlit(")");
    let n = why@.len() as int;
    assert(r@.take(n) =~= why@);
    if bytes > 0 {
        let rest = ", "@ + much@ + " received)"@;
        lemma_mentions(" (after "@, long@, rest);
        assert(r@.skip(n) =~= " (after "@ + long@ + rest);
        let k = n + long@.len();
        let t = r@.skip(k as int);
        reveal_strlit(", ");
        lemma_mentions(t.take(10), much@, " received)"@);
        assert(t =~= t.take(10) + much@ + " received)"@);
    } else {
        lemma_mentions(" (after "@, long@, ")"@);
        assert(r@.skip(n) =~= " (after "@ + long@ + ")"@);
    }
}

/// A hint on positions is given where the caster let the stream fall silent or
/// closed it, none was ever sent, and one may have been wanted: at any time
/// where the table says so, and within a minute where it says nothing or may
/// be out of date.
pub proof fn law_hints_follow_silent_ends(
    reason: &CloseReason,
    transport: Transport,
    mount: &str,
    requires_gga: Option<bool>,
    sent: u32,
    up: Span,
    r: Option<[String; 2]>,
)
    requires
        call_ensures(gga_hint, (reason, transport, mount, requires_gga, sent, up), r),
    ensures
        r is Some <==> {
            &&& *reason is RemoteClosed || *reason is StreamSilence
            &&& sent == 0 && transport == Transport::Ntrip && mount@.len() > 0
            &&& requires_gga == Some(true) || up.nanos < 60_000_000_000
        },
        r is Some && requires_gga == Some(true) ==> mentions(r->0@[0]@, "nmea=1"@),
        r is Some && requires_gga == Some(false) ==> mentions(r->0@[0]@, "nmea=0"@),
{
    if r is Some {
        let t = r->0@[0]@;
        reveal_strlit("This mount requests NMEA GGA (sourcetable nmea=1) and none was sent");
        reveal_strlit("The cached sourcetable says this mount needs no GGA (nmea=0)");
        reveal_strlit("nmea=1");
        reveal_strlit("nmea=0");
        if requires_gga == Some(true) {
            assert(t.subrange(42int, 42int + "nmea=1"@.len()) =~= "nmea=1"@);
        }
        if requires_gga == Some(false) {
            assert(t.subrange(53int, 53int + "nmea=0"@.len()) =~= "nmea=0"@);
        }
    }
}

/// That it stays disconnected is explained by what kept it: the failure, the
/// run, the options, or the limit, which is named.
pub proof fn law_staying_away_is_explained(
    was_transient: bool,
    policy: ReconnectPolicy,
    is_table: bool,
    max: u32,
    r: String,
)
    requires
        call_ensures(no_reconnect_line, (was_transient, policy, is_table, max), r),
    ensures
        !was_transient ==> mentions(r@, "would repeat"@),
        was_transient ==> match policy {
            ReconnectPolicy::OneShot => mentions(r@, "one-shot"@) && (is_table ==> mentions(
                r@,
                "Sourcetable"@,
            )) && (!is_table ==> mentions(r@, "This run"@)),
            ReconnectPolicy::OptionsOff => mentions(r@, "Auto-reconnect is off"@),
            ReconnectPolicy::Auto => mentions(r@, dec(max as nat)) && mentions(r@, "limit reached"@),
        },
{
    reveal_strlit("would repeat");
    reveal_strlit("one-shot");
    reveal_strlit("Sourcetable");
    reveal_strlit("This run");
    reveal_strlit("Auto-reconnect is off");
    reveal_strlit("limit reached");
    if !was_transient {
        reveal_strlit("Not reconnecting: this failure would repeat until the settings change");
        assert(r@.subrange(31int, 31int + "would repeat"@.len()) =~= "would repeat"@);
    } else {
        match policy {
            ReconnectPolicy::OneShot => {
                reveal_strlit("Sourcetable fetches are one-shot - use Get Sourcetable to retry");
                reveal_strlit("This run is one-shot - not reconnecting");
                if is_table {
                    assert(r@.take(11) =~= "Sourcetable"@);
                    lemma_mentions_first(r@, "Sourcetable"@);
                    assert(r@.subrange(24int, 24int + "one-shot"@.len()) =~= "one-shot"@);
                } else {
                    assert(r@.take(8) =~= "This run"@);
                    lemma_mentions_first(r@, "This run"@);
                    assert(r@.subrange(12int, 12int + "one-shot"@.len()) =~= "one-shot"@);
                }
            },
            ReconnectPolicy::OptionsOff => {
                reveal_strlit(
                    "Auto-reconnect is off - staying disconnected (enable it in Options to ride outages)",
                );
                assert(r@.take(21) =~= "Auto-reconnect is off"@);
                lemma_mentions_first(r@, "Auto-reconnect is off"@);
            },
            ReconnectPolicy::Auto => {
                let a = "Reconnect attempt limit reached ("@;
                reveal_strlit("Reconnect attempt limit reached (");
                lemma_mentions(a, dec(max as nat), " attempts) - staying disconnected"@);
                assert(r@.subrange(18int, 18int + "limit reached"@.len()) =~= "limit reached"@);
            },
        }
    }
}

/// A number in a series ends as it is spoken: first, second and third by their
/// own endings, but not eleventh to thirteenth.
pub proof fn law_ordinals_are_spoken(n: u32, r: String)
    requires
        call_ensures(ordinal_times, (n,), r),
    ensures
        ({
            let d = dec(n as nat);
            let teen = n / 10 % 10 == 1;
            &&& r@ == d + (if n % 10 == 1 && !teen {
                "st"@
            } else if n % 10 == 2 && !teen {
                "nd"@
            } else if n % 10 == 3 && !teen {
                "rd"@
            } else {
                "th"@
            }) + " time"@
        }),
{
    assert(n % 100 == n / 10 % 10 * 10 + n % 10) by (nonlinear_arith);
}

/// What is told of a new try names its number, the limit, and after drops how
/// many there were.
pub proof fn law_new_tries_are_numbered(drops: u32, next: u32, max: u32, r: String, times: String)
    requires
        call_ensures(reconnect_notice, (drops, next, max), r),
        call_ensures(ordinal_times, (drops,), times),
    ensures
        mentions(r@, "attempt "@ + dec(next as nat) + " of "@ + dec(max as nat)),
        drops > 0 ==> mentions(r@, times@) && mentions(r@, "dropped"@),
        drops == 0 ==> r@.take(15) == "Reconnecting in"@,
{
    let t = "attempt "@ + dec(next as nat) + " of "@ + dec(max as nat);
    reveal_strlit("attempt ");
    reveal_strlit("Reconnecting in 10 s (attempt ");
    reveal_strlit(" this session) - reconnecting in 10 s (attempt ");
    reveal_strlit("Reconnecting in");
    if drops == 0 {
        let a = "Reconnecting in 10 s (attempt "@;
        assert(a =~= a.take(22) + "attempt "@);
        lemma_mentions(a.take(22), t, ")"@);
        assert(a.take(22) + t + ")"@ =~= r@);
        assert(r@.take(15) =~= "Reconnecting in"@);
    } else {
        let s = "Stream dropped ("@;
        let m = " this session) - reconnecting in 10 s (attempt "@;
        reveal_strlit("Stream dropped (");
        reveal_strlit("dropped");
        assert(m =~= m.take(39) + "attempt "@);
        lemma_mentions(s + times@ + m.take(39), t, ")"@);
        assert(s + times@ + m.take(39) + t + ")"@ =~= r@);
        lemma_mentions(s, times@, m.take(39) + t + ")"@);
        assert(s + times@ + (m.take(39) + t + ")"@) =~= r@);
        assert(r@.subrange(7int, 7int + "dropped"@.len()) =~= "dropped"@);
    }
}

/// The addresses are dialled in order, each once, until one answers; without
/// any left, the last failure is told, and it names its address and its cause.
pub proof fn law_addresses_are_dialled_in_order(
    a: &Dialer,
    r: DialStep,
    d: &mut Dialer,
    cause: &str,
    after: &Dialer,
    next: DialStep,
)
    requires
        call_ensures(Dialer::step, (a, false), r),
        *old(d) == *a,
        a.wf() && a.next < a.addrs@.len(),
        call_ensures(Dialer::failed, (d, cause), ()),
        *after == *final(d),
        call_ensures(Dialer::step, (after, false), next),
    ensures
        r == DialStep::Dial(a.next),
        a.next + 1 < a.addrs@.len() ==> next == DialStep::Dial((a.next + 1) as usize),
        a.next + 1 == a.addrs@.len() ==> (next matches DialStep::Fail(t) && mentions(
            t@,
            a.addrs@[a.next as int]@,
        ) && mentions(t@, cause@)),
{
    let x = a.addrs@[a.next as int]@;
    let e = Seq::<char>::empty();
    let t = x + ": "@ + cause@;
    lemma_mentions(e, x, ": "@ + cause@);
    assert(e + x + (": "@ + cause@) =~= t);
    lemma_mentions(x + ": "@, cause@, e);
    assert(x + ": "@ + cause@ + e =~= t);
}

/// Dialling starts at the first address; without one, the caster is named. A
/// cancelled dialling stops before the next address.
pub proof fn law_dialling_starts_at_the_first(
    host: &str,
    port: u16,
    addrs: Vec<String>,
    d: Dialer,
    go: DialStep,
    stop: DialStep,
)
    requires
        call_ensures(Dialer::new, (host, port, addrs), d),
        call_ensures(Dialer::step, (&d, false), go),
        call_ensures(Dialer::step, (&d, true), stop),
    ensures
        addrs@.len() > 0 ==> go == DialStep::Dial(0) && (stop matches DialStep::Fail(t) && t@
            == "cancelled"@),
        addrs@.len() == 0 ==> (go matches DialStep::Fail(t) && mentions(t@, host@) && mentions(
            t@,
            dec(port as nat),
        )),
        d.addrs == addrs,
{
    let a = "no addresses for "@;
    let p = dec(port as nat);
    lemma_mentions(a, host@, ":"@ + p);
    assert(a + host@ + (":"@ + p) =~= d.last_err@);
    lemma_mentions(a + host@ + ":"@, p, Seq::empty());
    assert(a + host@ + ":"@ + p + Seq::<char>::empty() =~= d.last_err@);
}

/// What went wrong before the dialling is told with its cause.
pub proof fn law_lookup_errors_are_told(
    host: &str,
    port: u16,
    cause: &str,
    a: String,
    b: String,
)
    requires
        call_ensures(helper_error, (cause,), a),
        call_ensures(resolve_error, (host, port, cause), b),
    ensures
        mentions(a@, cause@),
        mentions(b@, host@) && mentions(b@, dec(port as nat)) && mentions(b@, cause@),
{
    let e = Seq::<char>::empty();
    let (h, p) = ("resolve "@, dec(port as nat));
    lemma_mentions("spawn connect helper: "@, cause@, e);
    assert("spawn connect helper: "@ + cause@ + e =~= a@);
    lemma_mentions(h, host@, ":"@ + p + ": "@ + cause@);
    assert(h + host@ + (":"@ + p + ": "@ + cause@) =~= b@);
    lemma_mentions(h + host@ + ":"@, p, ": "@ + cause@);
    assert(h + host@ + ":"@ + p + (": "@ + cause@) =~= b@);
    lemma_mentions(h + host@ + ":"@ + p + ": "@, cause@, e);
    assert(h + host@ + ":"@ + p + ": "@ + cause@ + e =~= b@);
}

/// Waiting ends with the result, or without one where it was cancelled or
/// nobody is left to give it; a pause alone does not end it.
pub proof fn law_waiting_can_be_cancelled(polled: Polled<u64>, cancelled: bool, r: Awaited<u64>)
    requires
        call_ensures(await_cancellable::<u64>, (polled, cancelled), r),
    ensures
        r is Abandoned <==> cancelled || polled is Gone,
        r is Again <==> !cancelled && polled is Timeout,
        r matches Awaited::Result(v) ==> polled == Polled::Value(v),
{
}

/// A name that cannot be one of a server is refused with the name and the
/// reason; any other passes.
pub proof fn law_server_names_are_judged(
    host: &str,
    parsed: Result<(), String>,
    r: Result<(), TlsFail>,
)
    requires
        call_ensures(server_name_outcome, (host, parsed), r),
    ensures
        r is Ok <==> parsed is Ok,
        parsed matches Err(e) ==> (r matches Err(TlsFail::Tls(t)) && mentions(t@, host@)
            && mentions(t@, e@)),
{
    if let Err(e) = parsed {
        let t = r->Err_0->Tls_0@;
        let a = "invalid TLS server name '"@;
        lemma_mentions(a, host@, "': "@ + e@);
        assert(a + host@ + ("': "@ + e@) =~= t);
        lemma_mentions(a + host@ + "': "@, e@, Seq::empty());
        assert(a + host@ + "': "@ + e@ + Seq::<char>::empty() =~= t);
    }
}

/// A handshake goes on until it fails, its time is up or it is cancelled; what
/// the other side rejects and what breaks on the way are told apart, and a
/// cancelled one is only cancelled.
pub proof fn law_handshake_failures_are_told_apart(
    cancelled: bool,
    now: u64,
    deadline: u64,
    gate: Result<(), TlsFail>,
    io: HandshakeIo,
    r: Result<(), TlsFail>,
)
    requires
        call_ensures(handshake_gate, (cancelled, now, deadline), gate),
        call_ensures(handshake_round, (io, cancelled), r),
    ensures
        gate is Ok <==> !cancelled && now < deadline,
        gate matches Err(f) ==> (f is Cancelled <==> cancelled) && (f is Io <==> !cancelled),
        r is Ok <==> io is Progress || io is NotReady,
        r matches Err(f) ==> (f is Cancelled <==> cancelled),
        io matches HandshakeIo::Rejected(e) ==> !cancelled ==> r == Err::<(), TlsFail>(
            TlsFail::Tls(e),
        ),
        io matches HandshakeIo::Broken(e) ==> !cancelled ==> r == Err::<(), TlsFail>(
            TlsFail::Io(e),
        ),
{
}

/// A session is told by its version and its cipher, each under its own name.
pub proof fn law_sessions_are_described(
    protocol: Option<String>,
    cipher: Option<String>,
    r: TlsInfo,
)
    requires
        call_ensures(session_info, (protocol, cipher), r),
    ensures
        protocol matches Some(p) ==> r.protocol@ == p@,
        cipher matches Some(c) ==> r.cipher@ == c@,
        protocol is None ==> r.protocol@ == "unknown version"@,
        cipher is None ==> r.cipher@ == "unknown cipher"@,
{
}

/// A block that goes in while nobody takes any is not kept; else it is the
/// last to come out, and where there was no room the first to come out is lost
/// and counted.
pub proof fn law_queue_loses_the_oldest(q: &mut CorrQueue, bytes: Vec<u8>, r: PushOutcome)
    requires
        call_ensures(CorrQueue::push, (q, bytes), r),
        old(q)@.wf(),
    ensures
        ({
            let (a, b) = (old(q)@, final(q)@);
            &&& r is Inactive <==> !a.active
            &&& !a.active ==> b == a
            &&& a.active ==> b.blocks.len() > 0 && b.blocks.last() == bytes@
            &&& r is DroppedOldest <==> a.active && a.blocks.len() == a.cap
            &&& r is DroppedOldest ==> b.blocks.len() == a.cap && forall|i: int|
                1 <= i < a.blocks.len() ==> #[trigger] a.blocks[i] == b.blocks[i - 1]
            &&& r is Queued ==> b.blocks.len() == a.blocks.len() + 1 && forall|i: int|
                0 <= i < a.blocks.len() ==> #[trigger] a.blocks[i] == b.blocks[i]
            &&& r matches PushOutcome::DroppedOldest(n) ==> n == b.overruns && (a.overruns
                < u64::MAX ==> n == a.overruns + 1)
            &&& !(r is DroppedOldest) ==> b.overruns == a.overruns
            &&& b.cap == a.cap && b.active == a.active
        }),
{
}

/// Blocks come out in the order they went in, one at a time, whether waited
/// for or not; a wait is for the rest of the time.
pub proof fn law_queue_gives_the_oldest(
    q: &mut CorrQueue,
    r: Option<Vec<u8>>,
    p: &mut CorrQueue,
    elapsed: Span,
    timeout: Span,
    t: TimedPop,
)
    requires
        call_ensures(CorrQueue::try_pop, (q,), r),
        call_ensures(CorrQueue::pop_timeout, (p, elapsed, timeout), t),
        old(q)@ == old(p)@,
        old(q)@.wf(),
    ensures
        final(p)@ == final(q)@,
        r is None <==> old(q)@.blocks.len() == 0,
        r matches Some(b) ==> b@ == old(q)@.blocks[0] && final(q)@.blocks.len() + 1
            == old(q)@.blocks.len() && (forall|i: int|
            0 <= i < final(q)@.blocks.len() ==> #[trigger] final(q)@.blocks[i]
                == old(q)@.blocks[i + 1]) && (t matches TimedPop::Block(c) && c@ == b@),
        r is None ==> (t is TimedOut <==> elapsed.nanos >= timeout.nanos),
        t matches TimedPop::WaitFor(rest) ==> elapsed.nanos + rest.nanos == timeout.nanos,
{
}

/// A queue starts empty and asleep; putting it to sleep empties it, waking it
/// does not fill it.
pub proof fn law_queue_sleeps_empty(
    cap: usize,
    fresh: CorrQueue,
    q: &mut CorrQueue,
    active: bool,
    n: u64,
)
    requires
        call_ensures(CorrQueue::new, (cap,), fresh),
        call_ensures(CorrQueue::set_active, (q, active), ()),
        call_ensures(CorrQueue::overruns, (&fresh,), n),
        old(q)@.wf(),
    ensures
        fresh@.blocks.len() == 0 && !fresh@.active && fresh@.cap >= 1 && n == 0,
        cap >= 1 ==> fresh@.cap == cap,
        final(q)@.active == active,
        !active ==> final(q)@.blocks.len() == 0,
        active ==> final(q)@.blocks == old(q)@.blocks,
        final(q)@.overruns == old(q)@.overruns && final(q)@.cap == old(q)@.cap,
{
}

} // verus!
