//! Laws of the workers' single steps: what each posts, keeps and hands on.
use vstd::prelude::*;

use crate::bus::{Effect, Outbox, Post, SerialView, StatusView};
use crate::laws::{added, keeps, lemma_mentions, lemma_mentions_first, mentions};
use crate::logging::{CaptureSink, CaptureTarget};
use crate::session::CloseReason;
use crate::settings::SerialCfg;
use crate::span::Span;
use crate::text::dec;
use crate::workers::machine::{
    first_end, note_gga_miss, table_line, worth_decoding, ConnState, Next, Run, SessionEnd,
    WaitStep,
};
use crate::workers::ntrip::{NtripJob, ReconnectPolicy};
use crate::workers::serial::{
    closed, command_sent, read_failed, read_fault, write_fault, BlockWriter, Drain, DrainStep,
    ForwardStep, PortFault, SerialRead, WriteEvent,
};
use crate::workers::tls::{TlsFail, TlsInfo};
use crate::workers::{join_timeout, CorrQueue, JoinStep};

verus! {

/// What is posted comes last, under its own name, and nothing before it
/// changes; both logs get the same line.
pub proof fn law_posts_are_appended(
    fresh: Outbox,
    a: &mut Outbox,
    e: Effect,
    b: &mut Outbox,
    c: &mut Outbox,
    d: &mut Outbox,
    text: &str,
)
    requires
        call_ensures(Outbox::new, (), fresh),
        call_ensures(Outbox::push, (a, e), ()),
        call_ensures(Outbox::event, (b, text), ()),
        call_ensures(Outbox::conn, (c, text), ()),
        call_ensures(Outbox::both, (d, text), ()),
    ensures
        fresh@.len() == 0,
        keeps(old(a)@, final(a)@) && added(old(a)@, final(a)@) == seq![e@],
        keeps(old(b)@, final(b)@) && added(old(b)@, final(b)@) == seq![Post::Event(text@)],
        keeps(old(c)@, final(c)@) && added(old(c)@, final(c)@) == seq![Post::Conn(text@)],
        keeps(old(d)@, final(d)@) && added(old(d)@, final(d)@) == seq![
            Post::Event(text@),
            Post::Conn(text@),
        ],
{
    assert(final(a)@.take(old(a)@.len() as int) =~= old(a)@);
    assert(final(b)@.take(old(b)@.len() as int) =~= old(b)@);
    assert(final(c)@.take(old(c)@.len() as int) =~= old(c)@);
    assert(final(d)@.take(old(d)@.len() as int) =~= old(d)@);
    assert(added(old(a)@, final(a)@) =~= seq![e@]);
    assert(added(old(b)@, final(b)@) =~= seq![Post::Event(text@)]);
    assert(added(old(c)@, final(c)@) =~= seq![Post::Conn(text@)]);
    assert(added(old(d)@, final(d)@) =~= seq![Post::Event(text@), Post::Conn(text@)]);
}

/// Times are kept in nanoseconds, and time never runs backwards.
pub proof fn law_times_are_nanoseconds(s: u64, a: Span, b: Span, then: u64, now: u64, c: Span)
    requires
        call_ensures(Span::from_secs, (s,), a),
        call_ensures(Span::from_millis, (s,), b),
        call_ensures(Span::since, (then, now), c),
        s * 1_000_000_000 <= u64::MAX,
    ensures
        a.nanos == 1_000_000_000 * s,
        b.nanos == 1_000_000 * s,
        then <= now ==> then + c.nanos == now,
        then > now ==> c.nanos == 0,
{
}

/// An attempt counts up, is shown and is told with the caster and its number,
/// unless it was cancelled before.
pub proof fn law_attempt_begins(
    run: &mut Run,
    cancelled: bool,
    out: &mut Outbox,
    r: Option<(String, bool)>,
)
    requires
        call_ensures(Run::begin_attempt, (run, cancelled, out), r),
        old(run).attempts_done < u32::MAX,
    ensures
        r is Some <==> cancelled,
        r matches Some(s) ==> !s.1 && *final(run) == *old(run) && final(out)@ == old(out)@,
        r is None ==> {
            let n = old(run).attempts_done + 1;
            let new = added(old(out)@, final(out)@);
            &&& final(run).attempts_done == n
            &&& final(run).job == old(run).job && final(run).drops == old(run).drops
            &&& final(run).total_bytes == old(run).total_bytes
            &&& keeps(old(out)@, final(out)@) && new.len() == 2
            &&& new[0] == Post::Ntrip(StatusView::Connecting { attempt: n as u32 })
            &&& new[1] matches Post::Event(t) && mentions(t, old(run).job.host@) && mentions(
                t,
                dec(old(run).job.port as nat),
            ) && mentions(t, "attempt "@ + dec(n as nat))
        },
{
    if r is None {
        let n = old(run).attempts_done + 1;
        assert(final(out)@.take(old(out)@.len() as int) =~= old(out)@);
        let (h, p, d) = (old(run).job.host@, dec(old(run).job.port as nat), dec(n as nat));
        let a = "Connecting to "@;
        let t = a + h + ":"@ + p + " (attempt "@ + d + ")"@;
        reveal_strlit(" (attempt ");
        reveal_strlit("attempt ");
        let i = a.len() as int;
        assert(t.subrange(i, i + h.len()) =~= h);
        let j = (a + h + ":"@).len() as int;
        assert(t.subrange(j, j + p.len()) =~= p);
        let k = (a + h + ":"@ + p).len() as int + 2;
        assert(" (attempt "@.skip(2) =~= "attempt "@);
        assert(t.subrange(k, k + ("attempt "@ + d).len()) =~= "attempt "@ + d);
        assert(added(old(out)@, final(out)@)[1] == final(out)@[old(out)@.len() as int + 1]);
    }
}

/// A new run has its job and has not begun anything yet.
pub proof fn law_run_starts_fresh(job: NtripJob, r: Run)
    requires
        call_ensures(Run::new, (job,), r),
    ensures
        r.job == job,
        r.attempts_done == 0 && r.drops == 0 && r.total_bytes == 0,
        r.crc_base == 0 && r.garbage_base == 0,
{
}

/// How a connection ended decides what follows, told by the run itself: it
/// comes back only where that is worth it, wanted, and within the limit.
pub proof fn law_run_comes_back(
    run: &mut Run,
    end: SessionEnd,
    cancelled: bool,
    out: &mut Outbox,
    r: Next,
)
    requires
        call_ensures(Run::after_session, (run, end, cancelled, out), r),
        old(run).drops < u32::MAX,
    ensures
        r is Reconnect <==> !crate::laws::caster::wanted_end(end, cancelled)
            && crate::laws::caster::worth_retrying(end) && old(run).job.reconnect
            == ReconnectPolicy::Auto && old(run).attempts_done < old(run).job.max_attempts,
        r matches Next::Reconnect { next_attempt } ==> next_attempt == old(run).attempts_done + 1,
        r matches Next::Stop { failed, .. } ==> (failed <==> !crate::laws::caster::wanted_end(
            end,
            cancelled,
        )),
        final(run).attempts_done == old(run).attempts_done && final(run).job == old(run).job,
        final(run).total_bytes == old(run).total_bytes,
{
}

/// A pause ends at its deadline, and before it only where it is cancelled.
pub proof fn law_pauses_end(
    now: u64,
    deadline: u64,
    cancelled: bool,
    r: WaitStep,
    finished: bool,
    j: JoinStep,
)
    requires
        call_ensures(Run::wait_step, (now, deadline, cancelled), r),
        call_ensures(join_timeout, (finished, now, deadline), j),
    ensures
        r == WaitStep::Done <==> now >= deadline,
        r == WaitStep::Cancelled <==> now < deadline && cancelled,
        j == JoinStep::Join <==> finished,
        j == JoinStep::Abandon <==> !finished && now >= deadline,
{
}

/// A handshake that succeeded is told in both logs, with the version, the
/// cipher, and whether the certificate was checked.
pub proof fn law_handshakes_are_told(run: &Run, info: &TlsInfo, out: &mut Outbox)
    requires
        call_ensures(Run::tls_complete, (run, info, out), ()),
    ensures
        keeps(old(out)@, final(out)@),
        ({
            let new = added(old(out)@, final(out)@);
            &&& new.len() == 2
            &&& new[0] matches Post::Event(t) && new[1] == Post::Conn(t) && mentions(
                t,
                info.protocol@ + ", "@ + info.cipher@,
            ) && (run.job.allow_invalid_certs ==> mentions(t, "NOT verified"@)) && (
            !run.job.allow_invalid_certs ==> mentions(t, "certificate verified"@))
        }),
{
    assert(final(out)@.take(old(out)@.len() as int) =~= old(out)@);
    let a = "TLS handshake complete: "@;
    let part = info.protocol@ + ", "@ + info.cipher@;
    let t = crate::workers::machine::handshake_text(
        info.protocol@,
        info.cipher@,
        run.job.allow_invalid_certs,
    );
    let n = a.len() as int;
    assert(t.subrange(n, n + part.len()) =~= part);
    let head = a + info.protocol@ + ", "@ + info.cipher@ + ", "@;
    reveal_strlit("certificate NOT verified (diagnostic mode)");
    reveal_strlit("certificate verified");
    reveal_strlit("NOT verified");
    let k = head.len() as int;
    if run.job.allow_invalid_certs {
        let w = "certificate NOT verified (diagnostic mode)"@;
        assert(w.subrange(12int, 24int) =~= "NOT verified"@);
        assert(t.subrange(k + 12, k + 12 + "NOT verified"@.len()) =~= "NOT verified"@);
    } else {
        let w = "certificate verified"@;
        assert(t.subrange(k, k + w.len()) =~= w);
    }
    assert(added(old(out)@, final(out)@)[0] == final(out)@[old(out)@.len() as int]);
    assert(added(old(out)@, final(out)@)[1] == final(out)@[old(out)@.len() as int + 1]);
}

/// A handshake that failed is worth a new try where the line broke, and not
/// where the other side was refused; cancelled, it ends as asked and in
/// silence.
pub proof fn law_handshake_ends(run: &Run, fail: TlsFail, out: &mut Outbox, r: SessionEnd)
    requires
        call_ensures(Run::tls_failed, (run, fail, out), r),
    ensures
        keeps(old(out)@, final(out)@),
        fail is Cancelled ==> r == SessionEnd::Closed(CloseReason::Cancelled) && final(out)@ == old(out)@,
        fail matches TlsFail::Tls(e) ==> (r matches SessionEnd::FailedPermanent(t) && mentions(
            t@,
            e@,
        ) && added(old(out)@, final(out)@) == seq![Post::Event(t@), Post::Conn(t@)]),
        fail matches TlsFail::Io(e) ==> (r matches SessionEnd::Failed(t) && mentions(t@, e@)
            && added(old(out)@, final(out)@) == seq![Post::Conn(t@)]),
{
    assert(final(out)@.take(old(out)@.len() as int) =~= old(out)@);
    match fail {
        TlsFail::Tls(e) => {
            let t = "TLS handshake failed: "@ + e@;
            let n = "TLS handshake failed: "@.len() as int;
            assert(t.subrange(n, n + e@.len()) =~= e@);
            assert(added(old(out)@, final(out)@) =~= seq![Post::Event(t), Post::Conn(t)]);
        },
        TlsFail::Io(e) => {
            let t = "TLS handshake failed: "@ + e@;
            let n = "TLS handshake failed: "@.len() as int;
            assert(t.subrange(n, n + e@.len()) =~= e@);
            assert(added(old(out)@, final(out)@) =~= seq![Post::Conn(t)]);
        },
        TlsFail::Cancelled => {},
    }
}

/// A failure says what was tried, and then why it failed.
pub proof fn law_failures_say_why(what: &str, cause: &str, r: SessionEnd)
    requires
        call_ensures(Run::failed, (what, cause), r),
    ensures
        r matches SessionEnd::Failed(t) && t@.take(what@.len() as int) == what@ && t@.skip(
            t@.len() - cause@.len(),
        ) == cause@,
{
    if let SessionEnd::Failed(t) = r {
        assert(t@.take(what@.len() as int) =~= what@);
        assert(t@.skip(t@.len() - cause@.len()) =~= cause@);
    }
}

/// A connection starts its own count of bytes and positions, is shown as
/// waiting, and begins the capture that was asked for; its end ends the
/// capture and hands the framing errors on.
pub proof fn law_connections_begin_and_end(
    run: &Run,
    now: u64,
    out: &mut Outbox,
    c: ConnState,
    ended: &mut Run,
    crc: u64,
    garbage: u64,
    rest: &mut Outbox,
)
    requires
        call_ensures(Run::connected, (run, now, out), c),
        call_ensures(Run::disconnected, (ended, crc, garbage, rest), ()),
        old(ended).crc_base + crc <= u64::MAX && old(ended).garbage_base + garbage <= u64::MAX,
    ensures
        !c.streaming && c.connected_at == now && c.bytes_at_connect == run.total_bytes,
        c.gga_sent == 0 && c.last_miss_note is None,
        keeps(old(out)@, final(out)@) && keeps(old(rest)@, final(rest)@),
        final(out)@[old(out)@.len() as int + 1] == Post::Ntrip(StatusView::WaitingForData),
        run.job.capture is None ==> final(out)@.len() == old(out)@.len() + 2,
        run.job.capture matches Some(t) ==> final(out)@.len() == old(out)@.len() + 3 && (final(out)@.last() matches Post::CaptureBegin { target, mount } && target == t@ && mount
            == run.job.mountpoint@),
        final(ended).crc_base == old(ended).crc_base + crc,
        final(ended).garbage_base == old(ended).garbage_base + garbage,
        final(ended).total_bytes == old(ended).total_bytes,
        old(ended).job.capture is Some ==> added(old(rest)@, final(rest)@) == seq![
            Post::CaptureEnd,
        ],
        old(ended).job.capture is None ==> final(rest)@ == old(rest)@,
{
    assert(final(out)@.take(old(out)@.len() as int) =~= old(out)@);
    assert(final(rest)@.take(old(rest)@.len() as int) =~= old(rest)@);
    if old(ended).job.capture is Some {
        assert(added(old(rest)@, final(rest)@) =~= seq![Post::CaptureEnd]);
    }
}

/// Only messages that a panel shows are decoded: station positions, antennas,
/// texts and biases.
pub proof fn law_shown_messages_are_decoded(ty: u16, r: bool)
    requires
        call_ensures(worth_decoding, (ty,), r),
    ensures
        r <==> 1005 <= ty <= 1006 || ty == 1008 || ty == 1029 || ty == 1033 || ty == 1230,
{
}

/// A position that could not be sent is explained the first time, in two
/// lines; then, every ten seconds and only while nothing streams, in one.
pub proof fn law_missed_positions_are_explained(
    conn: &mut ConnState,
    now: u64,
    diagnosis: &str,
    remedy: &str,
    out: &mut Outbox,
)
    requires
        call_ensures(note_gga_miss, (conn, now, diagnosis, remedy, out), ()),
    ensures
        keeps(old(out)@, final(out)@),
        ({
            let new = added(old(out)@, final(out)@);
            match old(conn).last_miss_note {
                None => new == seq![Post::Event(diagnosis@), Post::Event(remedy@)] && final(conn).last_miss_note == Some(now),
                Some(t) => if !old(conn).streaming && now - t >= 10_000_000_000 {
                    new.len() == 1 && new[0] is Event && final(conn).last_miss_note == Some(now)
                } else {
                    new.len() == 0 && *final(conn) == *old(conn)
                },
            }
        }),
        final(conn).streaming == old(conn).streaming && final(conn).gga_sent == old(conn).gga_sent,
        final(conn).connected_at == old(conn).connected_at,
{
    assert(final(out)@.take(old(out)@.len() as int) =~= old(out)@);
    let new = added(old(out)@, final(out)@);
    if old(conn).last_miss_note is None {
        assert(new =~= seq![Post::Event(diagnosis@), Post::Event(remedy@)]);
    }
}

/// The first end that was reported stays the end.
pub proof fn law_first_end_stays(
    a: Option<SessionEnd>,
    b: Option<SessionEnd>,
    r: Option<SessionEnd>,
)
    requires
        call_ensures(first_end, (a, b), r),
    ensures
        a is Some ==> r == a,
        a is None ==> r == b,
{
}

/// A table is told with its numbers of streams, casters and networks, each
/// with its own word.
pub proof fn law_tables_are_counted(
    what: &str,
    strs: usize,
    casters: usize,
    networks: usize,
    r: String,
)
    requires
        call_ensures(table_line, (what, strs, casters, networks), r),
    ensures
        r@.take(what@.len() as int) == what@,
        mentions(r@, dec(strs as nat) + " streams"@),
        mentions(r@, dec(casters as nat) + " casters"@),
        mentions(r@, dec(networks as nat) + " networks"@),
{
    let (a, b, c) = (dec(strs as nat), dec(casters as nat), dec(networks as nat));
    assert(r@.take(what@.len() as int) =~= what@);
    reveal_strlit(" streams, ");
    reveal_strlit(" casters, ");
    reveal_strlit(" streams");
    reveal_strlit(" casters");
    assert(" streams, "@.take(8) =~= " streams"@);
    assert(" casters, "@.take(8) =~= " casters"@);
    let h1 = what@ + ": "@;
    let h2 = h1 + a + " streams, "@;
    let h3 = h2 + b + " casters, "@;
    let (i, j, k) = (h1.len() as int, h2.len() as int, h3.len() as int);
    let (x, y, z) = (a + " streams"@, b + " casters"@, c + " networks"@);
    assert(r@.subrange(i, i + x.len()) =~= x);
    assert(r@.subrange(j, j + y.len()) =~= y);
    assert(r@.subrange(k, k + z.len()) =~= z);
}

/// A command that the receiver took is told; one that failed ends the session
/// with its cause, as a failed read does.
pub proof fn law_receiver_commands_are_told(
    command: &str,
    error: Option<&str>,
    out: &mut Outbox,
    r: Option<String>,
    cause: &str,
    f: String,
)
    requires
        call_ensures(command_sent, (command, error, out), r),
        call_ensures(read_failed, (cause,), f),
    ensures
        r is Some <==> error is Some,
        error is None ==> added(old(out)@, final(out)@).len() == 1 && (final(out)@.last()
            matches Post::Event(t) && mentions(t, command@)) && keeps(old(out)@, final(out)@),
        error matches Some(e) ==> mentions(r->0@, e@) && final(out)@ == old(out)@,
        mentions(f@, cause@),
{
    let n = "Serial error: "@.len() as int;
    assert(f@.subrange(n, n + cause@.len()) =~= cause@);
    match error {
        None => {
            let t = "Sent to receiver: "@ + command@;
            let k = "Sent to receiver: "@.len() as int;
            assert(t.subrange(k, k + command@.len()) =~= command@);
            assert(final(out)@.take(old(out)@.len() as int) =~= old(out)@);
        },
        Some(e) => {
            let t = r->0@;
            let k = "Receiver command failed: "@.len() as int;
            assert(t.subrange(k, k + e@.len()) =~= e@);
        },
    }
}

/// A port that closes stops taking corrections, and is shown with the failure
/// that closed it, or with none where it was asked to.
pub proof fn law_closed_ports_are_told(
    cfg: &SerialCfg,
    failure: Option<String>,
    corr: &mut CorrQueue,
    out: &mut Outbox,
)
    requires
        call_ensures(closed, (cfg, failure, corr, out), ()),
        old(corr)@.wf(),
    ensures
        !final(corr)@.active && final(corr)@.blocks.len() == 0,
        keeps(old(out)@, final(out)@) && final(out)@.len() == old(out)@.len() + 2,
        final(out)@.last() matches Post::Serial(SerialView::Disconnected { reason }) && match failure {
            Some(m) => reason == m@,
            None => reason.len() == 0,
        },
        final(out)@[old(out)@.len() as int] matches Post::Event(t) && match failure {
            Some(m) => mentions(t, m@),
            None => mentions(t, cfg.port@),
        },
{
    assert(final(out)@.take(old(out)@.len() as int) =~= old(out)@);
    let t = match failure {
        Some(m) => m@ + "; port closed"@,
        None => "Serial port "@ + cfg.port@ + " closed"@,
    };
    match failure {
        Some(m) => {
            assert(t.take(m@.len() as int) =~= m@);
            lemma_mentions_first(t, m@);
        },
        None => {
            lemma_mentions("Serial port "@, cfg.port@, " closed"@);
        },
    }
    assert(final(out)@[old(out)@.len() as int] == Post::Event(t));
}

/// A block is offered from where the port stopped taking it, until all of it
/// is taken; a port that takes nothing has failed.
pub proof fn law_blocks_are_offered_to_the_end(
    block: Vec<u8>,
    fresh: BlockWriter,
    w: &mut BlockWriter,
    event: WriteEvent,
    cancelled: bool,
    r: ForwardStep,
)
    requires
        call_ensures(BlockWriter::new, (block,), fresh),
        call_ensures(BlockWriter::forward_block, (w, event, cancelled), r),
        old(w).wf() && old(w).accepts(event),
    ensures
        fresh.sent == 0 && fresh.block == block,
        ({
            let taken = match event {
                WriteEvent::Wrote(n) => n as int,
                _ => 0,
            };
            let left = old(w).block@.len() - old(w).sent - taken;
            let bad = event is Failed || event == WriteEvent::Wrote(0);
            &&& final(w).block == old(w).block && final(w).sent == old(w).sent + taken
            &&& r is Failed <==> bad
            &&& r is Done <==> !bad && left == 0
            &&& r is Cancelled <==> !bad && left > 0 && cancelled
            &&& r matches ForwardStep::Write(b) ==> b@.len() == left && forall|i: int|
                0 <= i < left ==> #[trigger] b@[i] == old(w).block@[old(w).sent + taken + i]
            &&& event matches WriteEvent::Failed(e) ==> (r matches ForwardStep::Failed(t) && t@
                == e@)
        }),
{
}

/// With nothing in hand the oldest waiting block is taken and offered whole;
/// a cancelled drain takes none.
pub proof fn law_drain_takes_the_oldest(
    d: &mut Drain,
    corr: &mut CorrQueue,
    event: WriteEvent,
    cancelled: bool,
    r: DrainStep,
)
    requires
        call_ensures(Drain::drain_corrections, (d, corr, event, cancelled), r),
        old(d).wf() && old(corr)@.wf(),
        old(d).current is None,
    ensures
        cancelled ==> r is Finished && final(corr)@ == old(corr)@,
        !cancelled && old(corr)@.blocks.len() == 0 ==> r is Finished,
        !cancelled && old(corr)@.blocks.len() > 0 && old(corr)@.blocks[0].len() > 0 ==> (r
            matches DrainStep::Write(b) && b@ == old(corr)@.blocks[0]) && final(corr)@.blocks
            == old(corr)@.blocks.skip(1) && (final(d).current matches Some(w) && w.block@
            == old(corr)@.blocks[0] && w.sent == 0),
        final(corr)@.active == old(corr)@.active && final(corr)@.overruns == old(corr)@.overruns,
{
    lemma_next_block(old(corr)@);
}

proof fn lemma_next_block(q: crate::workers::QueueModel)
    ensures
        ({
            let n = crate::workers::serial::next_block(q).1;
            n.active == q.active && n.overruns == q.overruns && n.cap == q.cap
        }),
    decreases q.blocks.len(),
{
    if q.blocks.len() > 0 && q.blocks[0].len() == 0 {
        lemma_next_block(q.popped());
    }
}

/// A read that had nothing in time is no failure, and an interrupted write is
/// none; any other fault is one, with its cause.
pub proof fn law_faults_are_told_apart(
    fault: PortFault,
    cause: String,
    r: SerialRead,
    w: WriteEvent,
)
    requires
        call_ensures(read_fault, (fault, cause), r),
        call_ensures(write_fault, (fault, cause), w),
    ensures
        r is Nothing <==> fault is WouldBlock || fault is TimedOut,
        !(r is Nothing) ==> (r matches SerialRead::Failed(t) && t@ == cause@),
        w is Interrupted <==> fault is Interrupted,
        !(w is Interrupted) ==> (w matches WriteEvent::Failed(t) && t@ == cause@),
{
}

/// A copied target is the same kind at the same place; a fresh capture waits
/// for one, and what it wrote is flushed once.
pub proof fn law_capture_targets(
    t: &CaptureTarget,
    r: CaptureTarget,
    separator: char,
    fresh: CaptureSink,
    c: &mut CaptureSink,
    due: bool,
)
    requires
        call_ensures(CaptureTarget::duplicate, (t,), r),
        call_ensures(CaptureSink::new, (separator,), fresh),
        call_ensures(CaptureSink::flush, (c,), due),
    ensures
        *t matches CaptureTarget::Dir(d) ==> (r matches CaptureTarget::Dir(e) && e@ == d@),
        *t matches CaptureTarget::File(d) ==> (r matches CaptureTarget::File(e) && e@ == d@),
        fresh.armed is None && fresh.open is None && !fresh.dirty && !fresh.failed,
        fresh.separator == separator,
        due <==> old(c).dirty && old(c).open is Some,
        !final(c).dirty && final(c).open == old(c).open && final(c).armed == old(c).armed,
{
}

} // verus!
