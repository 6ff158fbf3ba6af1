//! Laws of the lines that the caster side tells while it runs.
use vstd::prelude::*;

use crate::bus::{Outbox, Post, StatusView};
use crate::laws::caster::{wanted_end, worth_retrying};
use crate::laws::{added, keeps, mentions};
use crate::session::{CloseReason, Transport};
use crate::span::Span;
use crate::text::dec;
use crate::vocab::GgaMode;
use crate::workers::machine::{Chunk, ConnState, Next, Output, Run, SessionEnd};
use crate::workers::ntrip::{
    close_event_line, close_summary, fmt_duration, gga_hint, gga_plan, manual_position_set,
    mountpoint_needs_encoding, no_reconnect_line, reconnect_notice, traffic_milestone,
};
use crate::workers::supervisor::Link;
use crate::workers::CorrQueue;

verus! {

/// The first data of a connection ends the outage: attempts count from the
/// start again and the next drop rings. Later data changes neither. What was
/// posted last of the framing is what the run has seen of it.
pub proof fn law_first_data_ends_the_outage(
    run: &mut Run,
    conn: &mut ConnState,
    now: u64,
    receiver_ready: bool,
    corr: &mut CorrQueue,
    chunk: Chunk,
    out: &mut Outbox,
)
    requires
        call_ensures(
            Run::on_corrections,
            (run, conn, now, receiver_ready, corr, chunk, out),
            (),
        ),
        old(run).has_room(chunk),
    ensures
        !old(conn).streaming ==> final(run).attempts_done == 0 && final(run).alert_armed,
        old(conn).streaming ==> final(run).attempts_done == old(run).attempts_done
            && final(run).alert_armed == old(run).alert_armed,
        final(run).drops == old(run).drops && final(run).job == old(run).job,
        final(run).crc_base == old(run).crc_base && final(run).garbage_base == old(run).garbage_base,
        final(run).last_health_posted.0 == old(run).crc_base + chunk.crc_failures,
        final(run).last_health_posted.1 == old(run).garbage_base + chunk.garbage_bytes,
        final(conn).gga_sent == old(conn).gga_sent && final(conn).connected_at == old(conn).connected_at && final(conn).bytes_at_connect == old(conn).bytes_at_connect,
{
}

/// What corrections are told by: the first by when they came and what is sent
/// of positions, a mark of the traffic by its own line, and lost ones by their
/// number, in words once a second at most.
#[verifier::spinoff_prover]
pub proof fn law_corrections_are_told(
    run: &mut Run,
    conn: &mut ConnState,
    now: u64,
    receiver_ready: bool,
    corr: &mut CorrQueue,
    chunk: Chunk,
    out: &mut Outbox,
    mark: Option<String>,
    up: Span,
    long: String,
    set: bool,
    plan: &'static str,
)
    requires
        call_ensures(
            Run::on_corrections,
            (run, conn, now, receiver_ready, corr, chunk, out),
            (),
        ),
        old(run).has_room(chunk),
        call_ensures(
            traffic_milestone,
            (old(run).total_bytes, (old(run).total_bytes + chunk.bytes@.len()) as u64),
            mark,
        ),
        call_ensures(Span::since, (old(conn).connected_at, now), up),
        call_ensures(fmt_duration, (up,), long),
        call_ensures(
            manual_position_set,
            (old(run).job.manual_lat, old(run).job.manual_lon),
            set,
        ),
        call_ensures(
            gga_plan,
            (
                old(run).job.transport,
                old(run).job.gga_mode,
                old(run).job.stream_requires_gga,
                old(run).job.gga_source,
                receiver_ready,
                set,
            ),
            plan,
        ),
    ensures
        ({
            let new = added(old(out)@, final(out)@);
            let at: int = if old(conn).streaming {
                0
            } else {
                2
            };
            let next: int = if mark is Some {
                at + 1
            } else {
                at
            };
            let lost = old(corr)@.active && old(corr)@.blocks.len() >= old(corr)@.cap;
            let due = match old(run).last_overrun_event {
                Some(t) => now - t >= 1_000_000_000,
                None => true,
            };
            &&& keeps(old(out)@, final(out)@)
            &&& !old(conn).streaming ==> (new[0] matches Post::Event(t) && mentions(t, long@)
                && mentions(t, plan@)) && new[1] == Post::Ntrip(StatusView::Streaming)
            &&& mark matches Some(line) ==> new[at] == Post::Event(line@)
            &&& lost ==> new[next] is Overruns
            &&& lost && due ==> (new[next + 1] matches Post::Event(t) && (new[next]
                matches Post::Overruns(n) && mentions(t, dec(n as nat)))) && final(run).last_overrun_event == Some(now)
            &&& lost && !due ==> !(new[next + 1] is Event) && final(run).last_overrun_event == old(run).last_overrun_event
            &&& !lost ==> !(new[next] is Event) && final(run).last_overrun_event == old(run).last_overrun_event
        }),
{
    let new = added(old(out)@, final(out)@);
    assert(final(out)@.take(old(out)@.len() as int) =~= old(out)@);
    if !old(conn).streaming {
        let t = old(run).receiving_text(*old(conn), now, receiver_ready);
        let a = "Receiving data (first data "@;
        let b = " after connect; "@;
        assert(t == a + long@ + b + plan@ + ")"@);
        let n = a.len() as int;
        assert(t.subrange(n, n + long@.len()) =~= long@);
        let k = (a + long@ + b).len() as int;
        assert(t.subrange(k, k + plan@.len()) =~= plan@);
        assert(new[0] == Post::Event(t));
    }
    let n = old(corr)@.next_overruns();
    let a = "Serial overrun: receiver link too slow, oldest corrections dropped ("@;
    let t = a + dec(n as nat) + " total)"@;
    let k = a.len() as int;
    assert(t.subrange(k, k + dec(n as nat).len()) =~= dec(n as nat));
}

/// An unwanted end is told in both logs, in one line that is the last of its
/// kind: that and when it comes back, or why it does not.
pub proof fn law_what_follows_is_told(
    run: &mut Run,
    end: SessionEnd,
    cancelled: bool,
    out: &mut Outbox,
    r: Next,
    back: String,
    away: String,
    drops: u32,
    transient: bool,
    table: bool,
)
    requires
        call_ensures(Run::after_session, (run, end, cancelled, out), r),
        old(run).drops < u32::MAX && old(run).attempts_done < u32::MAX,
        !wanted_end(end, cancelled),
        transient == worth_retrying(end),
        table == (old(run).job.transport == Transport::Ntrip && old(run).job.mountpoint@.len()
            == 0),
        drops == old(run).drops + if old(run).alert_armed {
            1int
        } else {
            0
        },
        call_ensures(
            reconnect_notice,
            (drops, (old(run).attempts_done + 1) as u32, old(run).job.max_attempts),
            back,
        ),
        call_ensures(
            no_reconnect_line,
            (transient, old(run).job.reconnect, table, old(run).job.max_attempts),
            away,
        ),
    ensures
        ({
            let new = added(old(out)@, final(out)@);
            let n = new.len() as int;
            &&& keeps(old(out)@, final(out)@)
            &&& r is Reconnect ==> n >= 3 && new[n - 3] == Post::Event(back@) && new[n - 2]
                == Post::Conn(back@)
            &&& r is Stop ==> n >= 2 && new[n - 2] == Post::Event(away@) && new[n - 1]
                == Post::Conn(away@)
            &&& end matches SessionEnd::Failed(m) ==> new[0] == Post::Event(m@)
        }),
{
    assert(final(out)@.take(old(out)@.len() as int) =~= old(out)@);
    if let SessionEnd::Closed(CloseReason::UnknownResponse { raw }) = end {
        assert(raw@.contains(10u8) <==> exists|i: int| 0 <= i < raw@.len() && raw@[i] == 10);
    }
}

/// A run that stops says why in its summary: the reason's own words, the
/// failure's own, or that it was asked to.
pub proof fn law_stops_are_summed_up(
    run: &mut Run,
    end: SessionEnd,
    cancelled: bool,
    out: &mut Outbox,
    r: Next,
    mount: &str,
    reason: &CloseReason,
    words: String,
)
    requires
        call_ensures(Run::after_session, (run, end, cancelled, out), r),
        old(run).drops < u32::MAX,
        mount@ == old(run).job.mountpoint@,
        call_ensures(close_summary, (reason, mount), words),
        end matches SessionEnd::Closed(c) ==> c == *reason,
    ensures
        r matches Next::Stop { summary, .. } ==> match end {
            SessionEnd::TableDone => summary@ == "Sourcetable downloaded"@,
            SessionEnd::Failed(m) => !cancelled ==> summary@ == m@,
            SessionEnd::FailedPermanent(m) => !cancelled ==> summary@ == m@,
            SessionEnd::Closed(c) => !cancelled ==> summary@ == words@,
        },
        cancelled ==> (r matches Next::Stop { summary, failed } && !failed && (
        !(end is TableDone) ==> summary@ == "Disconnected by user"@)),
{
    reveal_strlit("Disconnected by user");
    assert(crate::workers::machine::CANCEL_SUMMARY@ == "Disconnected by user"@);
}

/// The line of a close is that of its reason, of the time the connection was
/// up and of the bytes it brought, and the hint behind it is the one for them.
#[verifier::spinoff_prover]
pub proof fn law_close_line_is_of_this_connection(
    run: &Run,
    conn: &ConnState,
    now: u64,
    reason: &CloseReason,
    out: &mut Outbox,
    mount: &str,
    up: Span,
    bytes: u64,
    line: String,
    hint: Option<[String; 2]>,
)
    requires
        call_ensures(Run::on_close, (run, conn, now, reason, out), ()),
        mount@ == run.job.mountpoint@,
        call_ensures(Span::since, (conn.connected_at, now), up),
        bytes + conn.bytes_at_connect == run.total_bytes,
        call_ensures(close_event_line, (reason, mount, up, bytes), line),
        call_ensures(
            gga_hint,
            (
                reason,
                run.job.transport,
                mount,
                run.job.stream_requires_gga,
                conn.gga_sent,
                up,
            ),
            hint,
        ),
    ensures
        ({
            let new = added(old(out)@, final(out)@);
            let n = new.len() as int;
            &&& hint is None ==> new[n - 2] == Post::Event(line@) && new[n - 1] == Post::Conn(line@)
            &&& hint matches Some(h) ==> n >= 6 && new[n - 6] == Post::Event(line@) && new[n - 4]
                == Post::Event(h@[0]@) && new[n - 2] == Post::Event(h@[1]@)
        }),
{
    assert(final(out)@.take(old(out)@.len() as int) =~= old(out)@);
}

/// Before a connection to a named stream it is noted what is taken for granted
/// of it, what will be missing, and how its name is sent; each once in a run.
#[verifier::spinoff_prover]
pub proof fn law_notes_are_made_where_owed(
    run: &mut Run,
    out: &mut Outbox,
    mount: &str,
    spelt: bool,
)
    requires
        call_ensures(Run::connection_notices, (run, out), ()),
        mount@ == old(run).job.mountpoint@,
        call_ensures(mountpoint_needs_encoding, (mount,), spelt),
    ensures
        ({
            let new = added(old(out)@, final(out)@);
            let job = old(run).job;
            let stream = job.transport == Transport::Ntrip && job.mountpoint@.len() > 0;
            let assumed = stream && job.gga_mode == GgaMode::WhenRequired
                && job.stream_requires_gga is None && !old(run).gga_assumption_logged;
            let missing = stream && job.gga_mode == GgaMode::Off && job.stream_requires_gga
                == Some(true) && !old(run).gga_off_warning_logged;
            let encoded = spelt && !old(run).mount_encoding_logged;
            &&& keeps(old(out)@, final(out)@)
            &&& new.len() == (if assumed {
                1int
            } else {
                0
            }) + (if missing {
                2int
            } else {
                0
            }) + (if encoded {
                1int
            } else {
                0
            })
            &&& assumed || missing ==> (new[0] matches Post::Event(t) && mentions(t, mount@))
            &&& forall|i: int| 0 <= i < new.len() ==> (#[trigger] new[i]) is Event
            &&& final(run).gga_assumption_logged == (old(run).gga_assumption_logged || assumed)
            &&& final(run).gga_off_warning_logged == (old(run).gga_off_warning_logged || missing)
            &&& final(run).mount_encoding_logged == (old(run).mount_encoding_logged || encoded)
            &&& final(run).job == job && final(run).attempts_done == old(run).attempts_done
        }),
{
    assert(final(out)@.take(old(out)@.len() as int) =~= old(out)@);
    assert(spelt == crate::workers::ntrip::has_unplain_byte(mount@));
    let a = "No sourcetable entry for '"@;
    let b = "The sourcetable marks '"@;
    let x = a + mount@ + "'; will send GGA in case it is required"@;
    let y = b + mount@ + "' as requiring NMEA GGA, but Send GGA is off"@;
    let (n, k) = (a.len() as int, b.len() as int);
    assert(x.subrange(n, n + mount@.len()) =~= mount@);
    assert(y.subrange(k, k + mount@.len()) =~= mount@);
}

/// A table that came is handed on byte for byte and ends the connection as
/// done; a close hands its reason on as the end, unless one was there before.
pub proof fn law_reports_end_the_connection(
    link: &mut Link,
    run: &mut Run,
    output: Output,
    now: u64,
    receiver: &Option<String>,
    corr: &mut CorrQueue,
    out: &mut Outbox,
)
    requires
        call_ensures(Link::dispatch, (link, run, output, now, receiver, corr, out), ()),
        old(corr)@.wf(),
    ensures
        output matches Output::Sourcetable(raw) ==> (final(out)@.last() matches Post::Sourcetable(
            bytes,
            _,
        ) && bytes == raw@) && final(out)@.len() == old(out)@.len() + 1 && (old(link).end is None ==> final(link).end == Some(SessionEnd::TableDone)),
        output matches Output::Close(reason) ==> (old(link).end is None ==> final(link).end == Some(
            SessionEnd::Closed(reason),
        )),
        !(output is Sourcetable) && !(output is Close) ==> final(link).end == old(link).end,
        old(link).end is Some ==> final(link).end == old(link).end,
{
}

} // verus!
