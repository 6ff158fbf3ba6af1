//! Laws of the caster side: positions, corrections and the ends of
//! connections.
use vstd::prelude::*;

use crate::bus::{Outbox, Post, StatusView};
use crate::ieee::Real64;
use crate::laws::{added, keeps, lemma_mentions, mentions};
use crate::session::CloseReason;
use crate::text::dec;
use crate::vocab::GgaSource;
use crate::workers::dial::{ReadOutcome, SessionCall};
use crate::workers::machine::{
    on_gga_written, tally, tally_frames, tally_index, Chunk, ConnState, Output, Run, SessionEnd,
};
use crate::workers::ntrip::ReconnectPolicy;
use crate::workers::supervisor::{Act, Happened, Link, LinkAct, LinkEvent, Supervisor};
use crate::workers::tls::{TlsFail, TlsInfo};
use crate::workers::CorrQueue;

verus! {

/// A latitude within 90 and a longitude within 180 degrees (by the binary64
/// patterns of the two limits), and not both zero.
pub open spec fn usable(lat: Real64, lon: Real64) -> bool {
    &&& lat.magnitude() <= 0x4056_8000_0000_0000
    &&& lon.magnitude() <= 0x4066_8000_0000_0000
    &&& !(lat.magnitude() == 0 && lon.magnitude() == 0)
}

/// With a manual source, what goes out is the sentence of the manual position,
/// whatever the receiver has said; without usable coordinates nothing does.
pub proof fn law_manual_position_is_sent(
    run: &Run,
    conn: &mut ConnState,
    now: u64,
    fabricated: &str,
    receiver: &Option<String>,
    out: &mut Outbox,
)
    requires
        call_ensures(Run::on_gga_due, (run, conn, now, fabricated, receiver, out), ()),
        run.job.gga_source == GgaSource::Manual,
    ensures
        usable(run.job.manual_lat, run.job.manual_lon) ==> final(out)@ == old(out)@.push(
            Post::Send(fabricated@),
        ) && *final(conn) == *old(conn),
        !usable(run.job.manual_lat, run.job.manual_lon) ==> final(out)@.last() == Post::GgaMissed
            && forall|i: int|
            old(out)@.len() <= i < final(out)@.len() ==> !((#[trigger] final(out)@[i]) is Send),
        keeps(old(out)@, final(out)@),
{
    assert(final(out)@.take(old(out)@.len() as int) =~= old(out)@);
}

/// With the receiver as source, what goes out is its last sentence with a line
/// end, whatever the manual position is; without one nothing goes out.
pub proof fn law_receiver_position_is_passed_on(
    run: &Run,
    conn: &mut ConnState,
    now: u64,
    fabricated: &str,
    receiver: &Option<String>,
    out: &mut Outbox,
)
    requires
        call_ensures(Run::on_gga_due, (run, conn, now, fabricated, receiver, out), ()),
        run.job.gga_source == GgaSource::Receiver,
    ensures
        receiver matches Some(raw) ==> final(out)@ == old(out)@.push(
            Post::Send(raw@ + seq!['\r', '\n']),
        ) && *final(conn) == *old(conn),
        receiver is None ==> final(out)@.last() == Post::GgaMissed && forall|i: int|
            old(out)@.len() <= i < final(out)@.len() ==> !((#[trigger] final(out)@[i]) is Send),
        keeps(old(out)@, final(out)@),
{
    reveal_strlit("\r\n");
    assert("\r\n"@ =~= seq!['\r', '\n']);
    assert(final(out)@.take(old(out)@.len() as int) =~= old(out)@);
}

/// Frames of one message type.
pub open spec fn frames_of(frames: Seq<(u16, u16)>, ty: u16) -> nat
    decreases frames.len(),
{
    if frames.len() == 0 {
        0
    } else {
        frames_of(frames.drop_last(), ty) + if frames.last().0 == ty {
            1nat
        } else {
            0
        }
    }
}

/// Payload length of the last frame of one message type.
pub open spec fn last_length(frames: Seq<(u16, u16)>, ty: u16) -> int
    decreases frames.len(),
{
    if frames.len() == 0 {
        0
    } else if frames.last().0 == ty {
        frames.last().1 as int
    } else {
        last_length(frames.drop_last(), ty)
    }
}

/// Whether a report counts the frames: one entry per message type that came,
/// with how many came and the wire size of the last one, which is its payload
/// with three bytes of header and three of checksum.
pub open spec fn counts_frames(report: Seq<(u16, u32, u32)>, frames: Seq<(u16, u16)>) -> bool {
    &&& forall|i: int|
        0 <= i < report.len() ==> {
            &&& (#[trigger] report[i]).1 == frames_of(frames, report[i].0)
            &&& report[i].1 > 0
            &&& report[i].2 == last_length(frames, report[i].0) + 3 + 3
        }
    &&& forall|k: int|
        0 <= k < frames.len() ==> exists|i: int|
            0 <= i < report.len() && (#[trigger] report[i]).0 == (#[trigger] frames[k]).0
    &&& forall|i: int, j: int|
        0 <= i < j < report.len() ==> (#[trigger] report[i]).0 != (#[trigger] report[j]).0
}

proof fn lemma_frames_bound(frames: Seq<(u16, u16)>, ty: u16)
    ensures
        frames_of(frames, ty) <= frames.len(),
        frames_of(frames, ty) > 0 <==> exists|k: int|
            0 <= k < frames.len() && (#[trigger] frames[k]).0 == ty,
    decreases frames.len(),
{
    if frames.len() > 0 {
        let prev = frames.drop_last();
        lemma_frames_bound(prev, ty);
        if frames.last().0 == ty {
            assert(frames[frames.len() - 1].0 == ty);
        } else {
            if frames_of(frames, ty) > 0 {
                let k = choose|k: int| 0 <= k < prev.len() && (#[trigger] prev[k]).0 == ty;
                assert(frames[k].0 == ty);
            }
            if exists|k: int| 0 <= k < frames.len() && (#[trigger] frames[k]).0 == ty {
                let k = choose|k: int| 0 <= k < frames.len() && (#[trigger] frames[k]).0 == ty;
                assert(prev[k].0 == ty);
            }
        }
    }
}

/// The frames of a chunk are counted per message type.
pub proof fn law_frames_are_counted_per_type(frames: &Vec<(u16, u16)>, r: Vec<(u16, u32, u32)>)
    requires
        call_ensures(tally_frames, (frames,), r),
        frames@.len() <= u32::MAX,
    ensures
        counts_frames(r@, frames@),
{
    lemma_tally_counts(frames@);
}

proof fn lemma_tally_counts(frames: Seq<(u16, u16)>)
    requires
        frames.len() <= u32::MAX,
    ensures
        counts_frames(tally(frames), frames),
    decreases frames.len(),
{
    if frames.len() > 0 {
        let prev = frames.drop_last();
        let f = frames.last();
        lemma_tally_counts(prev);
        crate::workers::machine::law_tally_counts_every_frame(frames);
        let t = tally(prev);
        let u = tally(frames);
        let at = tally_index(t, f.0);
        lemma_index(t, f.0);
        assert forall|i: int| 0 <= i < u.len() implies {
            &&& (#[trigger] u[i]).1 == frames_of(frames, u[i].0)
            &&& u[i].1 > 0
            &&& u[i].2 == last_length(frames, u[i].0) + 3 + 3
        } by {
            lemma_frames_bound(frames, u[i].0);
            lemma_frames_bound(prev, u[i].0);
            if i < t.len() && i != at {
                assert(u[i] == t[i]);
                if t[i].0 == f.0 {
                    assert(u[at].0 == f.0);
                }
            } else if at == t.len() {
                if frames_of(prev, f.0) > 0 {
                    let k = choose|k: int| 0 <= k < prev.len() && (#[trigger] prev[k]).0 == f.0;
                    let j = choose|j: int|
                        0 <= j < t.len() && (#[trigger] t[j]).0 == (#[trigger] prev[k]).0;
                    assert(t[j].0 == f.0);
                }
            } else {
                assert(t[at].1 == frames_of(prev, f.0));
            }
        }
        assert forall|k: int| 0 <= k < frames.len() implies exists|i: int|
            0 <= i < u.len() && (#[trigger] u[i]).0 == (#[trigger] frames[k]).0 by {
            if k < prev.len() {
                let i = choose|i: int|
                    0 <= i < t.len() && (#[trigger] t[i]).0 == (#[trigger] prev[k]).0;
                assert(u[i].0 == frames[k].0);
            } else {
                assert(u[at].0 == f.0);
            }
        }
    }
}

proof fn lemma_index(t: Seq<(u16, u32, u32)>, ty: u16)
    ensures
        0 <= tally_index(t, ty) <= t.len(),
        tally_index(t, ty) < t.len() ==> t[tally_index(t, ty)].0 == ty,
        forall|k: int| 0 <= k < tally_index(t, ty) ==> (#[trigger] t[k]).0 != ty,
    decreases t.len(),
{
    if t.len() > 0 && t[0].0 != ty {
        let u = t.skip(1);
        lemma_index(u, ty);
        let n = tally_index(u, ty);
        if n < u.len() {
            assert(u[n] == t[n + 1]);
        }
        assert forall|k: int| 0 <= k < n + 1 implies (#[trigger] t[k]).0 != ty by {
            if k > 0 {
                assert(u[k - 1] == t[k]);
            }
        }
    }
}

/// What a chunk of corrections comes to: its framing report carries the
/// chunk's frames and the run's two error counts, each with its own earlier
/// ones added; the byte total grows by the chunk's length and is posted last;
/// a capture gets the chunk's bytes, and no others; the first chunk of a
/// connection, and only that one, announces the stream.
pub proof fn law_corrections_are_reported(
    run: &mut Run,
    conn: &mut ConnState,
    now: u64,
    receiver_ready: bool,
    corr: &mut CorrQueue,
    chunk: Chunk,
    out: &mut Outbox,
)
    requires
        call_ensures(
            Run::on_corrections,
            (run, conn, now, receiver_ready, corr, chunk, out),
            (),
        ),
        old(run).has_room(chunk),
    ensures
        keeps(old(out)@, final(out)@),
        ({
            let new = added(old(out)@, final(out)@);
            let crc = old(run).crc_base + chunk.crc_failures;
            let garbage = old(run).garbage_base + chunk.garbage_bytes;
            let total = old(run).total_bytes + chunk.bytes@.len();
            &&& forall|i: int|
                0 <= i < new.len() ==> match #[trigger] new[i] {
                    Post::Rtcm(report, c, g) => counts_frames(report, chunk.frames@) && c == crc
                        && g == garbage,
                    Post::CaptureData(bytes) => bytes == chunk.bytes@ && old(run).job.capture
                        is Some,
                    Post::RxBytes(n) => n == total && i == new.len() - 1,
                    Post::Ntrip(s) => s is Streaming && !old(conn).streaming,
                    Post::Overruns(n) => old(corr)@.active && old(corr)@.blocks.len() >= old(
                        corr,
                    )@.cap && (old(corr)@.overruns < u64::MAX ==> n == old(corr)@.overruns + 1),
                    Post::Event(_) => true,
                    _ => false,
                }
            &&& new.len() > 0 && new.last() is RxBytes
            &&& old(run).job.capture is Some ==> exists|i: int|
                0 <= i < new.len() && (#[trigger] new[i]) is CaptureData
            &&& chunk.frames@.len() > 0 || (crc, garbage) != (
                old(run).last_health_posted.0 as int,
                old(run).last_health_posted.1 as int,
            ) ==> exists|i: int| 0 <= i < new.len() && (#[trigger] new[i]) is Rtcm
            &&& !old(conn).streaming ==> exists|i: int|
                0 <= i < new.len() && (#[trigger] new[i]) is Ntrip
            &&& final(run).total_bytes == total
            &&& final(conn).streaming
        }),
{
    lemma_tally_counts(chunk.frames@);
    let new = added(old(out)@, final(out)@);
    let n = new.len();
    assert(final(out)@.take(old(out)@.len() as int) =~= old(out)@);
    assert(new[n - 1] is RxBytes);
    if old(run).posts_rtcm(chunk) {
        assert(new[n - 2] is Rtcm);
    }
    if old(run).job.capture is Some {
        assert(new[n - 2] is CaptureData || new[n - 3] is CaptureData);
    }
    if !old(conn).streaming {
        assert(new[1] is Ntrip);
    }
}

/// Whether a connection that ended like this can succeed when tried again: it
/// ran into time, silence or damage, was dropped, or never got one whole line
/// of response.
pub open spec fn worth_retrying(end: SessionEnd) -> bool {
    match end {
        SessionEnd::Failed(_) => true,
        SessionEnd::Closed(reason) => match reason {
            CloseReason::FirstResponseTimeout | CloseReason::SourcetableTimeout
            | CloseReason::StreamSilence | CloseReason::RemoteClosed => true,
            CloseReason::StreamCorrupt { .. } => true,
            CloseReason::UnknownResponse { raw } => forall|i: int|
                0 <= i < raw@.len() ==> raw@[i] != 10,
            CloseReason::Unauthorized | CloseReason::Cancelled => false,
            CloseReason::MountpointNotFound { .. } => false,
        },
        SessionEnd::FailedPermanent(_) | SessionEnd::TableDone => false,
    }
}

/// Whether an end is no failure: the table came, or the user wanted it.
pub open spec fn wanted_end(end: SessionEnd, cancelled: bool) -> bool {
    cancelled || end is TableDone || (end matches SessionEnd::Closed(reason) && reason
        is Cancelled)
}

/// After an end that nobody wanted, the run waits ten seconds and tries again
/// exactly when the failure can pass, the user opted in and the attempt budget
/// is not used up; else it stops as failed. Wanted ends stop it as clean. An
/// armed alert rings for an unwanted end, once, with the job's own sound, and
/// counts as a drop.
pub proof fn law_reconnect_decision(
    sup: &mut Supervisor,
    end: SessionEnd,
    now: u64,
    cancelled: bool,
    out: &mut Outbox,
    r: Act,
)
    requires
        call_ensures(Supervisor::supervise, (sup, Happened::Ended(end), now, cancelled, out), r),
        old(sup).run.drops < u32::MAX,
        old(sup).run.attempts_done < u32::MAX,
        now <= u64::MAX - 10_000_000_000,
    ensures
        ({
            let job = old(sup).run.job;
            let again = !wanted_end(end, cancelled) && worth_retrying(end) && job.reconnect
                == ReconnectPolicy::Auto && old(sup).run.attempts_done < job.max_attempts;
            let new = added(old(out)@, final(out)@);
            &&& keeps(old(out)@, final(out)@)
            &&& r is Sleep <==> again
            &&& again ==> final(sup).wait_until == Some((now + 10_000_000_000) as u64)
            &&& !again ==> (r matches Act::Stop { failed, .. } && failed == !wanted_end(
                end,
                cancelled,
            ))
            &&& forall|i: int|
                0 <= i < new.len() ==> match #[trigger] new[i] {
                    Post::Ntrip(s) => again && (s matches StatusView::ReconnectWait { next_attempt }
                        && next_attempt == old(sup).run.attempts_done + 1),
                    Post::Alert(sound) => old(sup).run.alert_armed && !wanted_end(end, cancelled)
                        && sound == job.audio_alert@,
                    Post::Event(_) | Post::Conn(_) => true,
                    _ => false,
                }
            &&& again ==> exists|i: int| 0 <= i < new.len() && (#[trigger] new[i]) is Ntrip
            &&& old(sup).run.alert_armed && !wanted_end(end, cancelled) ==> exists|i: int|
                0 <= i < new.len() && (#[trigger] new[i]) is Alert
            &&& !wanted_end(end, cancelled) ==> !final(sup).run.alert_armed && final(sup).run.drops
                == old(sup).run.drops + if old(sup).run.alert_armed {
                1int
            } else {
                0
            }
            &&& final(sup).run.total_bytes == old(sup).run.total_bytes
        }),
{
    let new = added(old(out)@, final(out)@);
    assert(final(out)@.take(old(out)@.len() as int) =~= old(out)@);
    if let SessionEnd::Closed(CloseReason::UnknownResponse { raw }) = end {
        assert(raw@.contains(10u8) <==> exists|i: int| 0 <= i < raw@.len() && raw@[i] == 10);
    }
    if r is Sleep {
        assert(new[new.len() - 1] is Ntrip);
    }
    if old(sup).run.alert_armed && !wanted_end(end, cancelled) {
        assert(new[0] is Alert || new[1] is Alert);
    }
}

/// The attempts of an outage are numbered from one upwards, as the status
/// says, and an attempt that is due is dialled at once, unless the run was
/// cancelled: then it stops, and that is no failure.
pub proof fn law_attempts_are_numbered(
    sup: &mut Supervisor,
    event: Happened,
    now: u64,
    cancelled: bool,
    out: &mut Outbox,
    r: Act,
)
    requires
        call_ensures(Supervisor::supervise, (sup, event, now, cancelled, out), r),
        old(sup).run.attempts_done < u32::MAX,
        match event {
            Happened::Start => true,
            Happened::Slept => old(sup).wait_until matches Some(t) && t <= now,
            _ => false,
        },
    ensures
        cancelled ==> (r matches Act::Stop { failed, .. } && !failed) && final(out)@ == old(out)@,
        !cancelled ==> {
            let n = old(sup).run.attempts_done + 1;
            &&& r is Dial
            &&& final(sup).run.attempts_done == n
            &&& final(out)@.len() == old(out)@.len() + 2
            &&& final(out)@[old(out)@.len() as int] == Post::Ntrip(
                StatusView::Connecting { attempt: n as u32 },
            )
            &&& (final(out)@.last() matches Post::Event(line) && mentions(
                line,
                old(sup).run.job.host@,
            ) && mentions(line, dec(old(sup).run.job.port as nat)) && mentions(line, dec(n as nat)))
        },
        final(sup).wait_until is None,
{
    if !cancelled {
        let job = old(sup).run.job;
        let n = dec((old(sup).run.attempts_done + 1) as nat);
        let (a, b, c, d) = ("Connecting to "@, ":"@, " (attempt "@, ")"@);
        let port = dec(job.port as nat);
        let line = a + job.host@ + b + port + c + n + d;
        lemma_mentions(a, job.host@, b + port + c + n + d);
        assert(a + job.host@ + (b + port + c + n + d) =~= line);
        lemma_mentions(a + job.host@ + b, port, c + n + d);
        assert(a + job.host@ + b + port + (c + n + d) =~= line);
        lemma_mentions(a + job.host@ + b + port + c, n, d);
        assert(final(out)@.last() == Post::Event(line));
    }
}

/// A run that waits keeps waiting until its time has come, and only a cancel
/// cuts that short.
pub proof fn law_waiting_is_patient(
    sup: &mut Supervisor,
    now: u64,
    cancelled: bool,
    out: &mut Outbox,
    r: Act,
)
    requires
        call_ensures(Supervisor::supervise, (sup, Happened::Slept, now, cancelled, out), r),
        old(sup).wait_until matches Some(t) && now < t,
    ensures
        final(out)@ == old(out)@,
        *final(sup) == *old(sup),
        !cancelled ==> r is Sleep,
        cancelled ==> (r matches Act::Stop { failed, .. } && !failed),
{
}

/// The protocol exchange reaches both logs word for word: what was sent behind
/// `> `, what was received behind `< `.
pub proof fn law_protocol_lines_reach_both_logs(
    link: &mut Link,
    run: &mut Run,
    output: Output,
    now: u64,
    receiver: &Option<String>,
    corr: &mut CorrQueue,
    out: &mut Outbox,
)
    requires
        call_ensures(Link::dispatch, (link, run, output, now, receiver, corr, out), ()),
    ensures
        output matches Output::ProtocolTx(line) ==> final(out)@ == old(out)@ + seq![
            Post::Event(seq!['>', ' '] + line@),
            Post::Conn(seq!['>', ' '] + line@),
        ],
        output matches Output::ProtocolRx(line) ==> final(out)@ == old(out)@ + seq![
            Post::Event(seq!['<', ' '] + line@),
            Post::Conn(seq!['<', ' '] + line@),
        ],
        output is ProtocolTx || output is ProtocolRx ==> *final(run) == *old(run)
            && final(link).conn == old(link).conn && final(corr)@ == old(corr)@,
{
    reveal_strlit("> ");
    reveal_strlit("< ");
    assert("> "@ =~= seq!['>', ' ']);
    assert("< "@ =~= seq!['<', ' ']);
    if let Output::ProtocolTx(line) = output {
        assert(final(out)@ =~= old(out)@ + seq![
            Post::Event(seq!['>', ' '] + line@),
            Post::Conn(seq!['>', ' '] + line@),
        ]);
    }
    if let Output::ProtocolRx(line) = output {
        assert(final(out)@ =~= old(out)@ + seq![
            Post::Event(seq!['<', ' '] + line@),
            Post::Conn(seq!['<', ' '] + line@),
        ]);
    }
}

/// A delivered sourcetable is published byte for byte and ends the connection
/// as done; a close ends it with its own reason; nothing that comes later
/// changes how it ended.
pub proof fn law_first_end_counts(
    link: &mut Link,
    run: &mut Run,
    output: Output,
    now: u64,
    receiver: &Option<String>,
    corr: &mut CorrQueue,
    out: &mut Outbox,
)
    requires
        call_ensures(Link::dispatch, (link, run, output, now, receiver, corr, out), ()),
    ensures
        old(link).end is Some ==> final(link).end == old(link).end,
        old(link).end is None ==> match output {
            Output::Sourcetable(_) => final(link).end == Some(SessionEnd::TableDone),
            Output::Close(reason) => final(link).end == Some(SessionEnd::Closed(reason)),
            _ => final(link).end is None,
        },
        output matches Output::Sourcetable(raw) ==> final(out)@.len() == old(out)@.len() + 1
            && final(out)@.take(old(out)@.len() as int) == old(out)@ && (
        final(out)@.last() matches Post::Sourcetable(bytes, _) && bytes == raw@),
{
    if let Output::Sourcetable(raw) = output {
        assert(final(out)@.take(old(out)@.len() as int) =~= old(out)@);
    }
}

/// A chunk of corrections that comes through a connection is queued for the
/// receiver as the newest block, and is reported as it is when taken in by
/// itself; nothing else touches the queue.
pub proof fn law_corrections_reach_the_queue(
    link: &mut Link,
    run: &mut Run,
    output: Output,
    now: u64,
    receiver: &Option<String>,
    corr: &mut CorrQueue,
    out: &mut Outbox,
)
    requires
        call_ensures(Link::dispatch, (link, run, output, now, receiver, corr, out), ()),
        old(corr)@.wf(),
    ensures
        !(output is Corrections) ==> final(corr)@ == old(corr)@,
        output matches Output::Corrections(chunk) ==> {
            &&& final(link).conn.streaming
            &&& !old(corr)@.active ==> final(corr)@ == old(corr)@
            &&& old(corr)@.active ==> final(corr)@.blocks.last() == chunk.bytes@
            &&& old(corr)@.active && old(corr)@.blocks.len() < old(corr)@.cap
                ==> final(corr)@.blocks == old(corr)@.blocks.push(chunk.bytes@)
            &&& old(corr)@.active && old(corr)@.blocks.len() == old(corr)@.cap
                ==> final(corr)@.blocks == old(corr)@.blocks.push(chunk.bytes@).skip(1)
            &&& final(run).total_bytes == (old(run).total_bytes + chunk.bytes@.len()) as u64
        },
{
    if let Output::Corrections(chunk) = output {
        if old(corr)@.active && old(corr)@.blocks.len() == old(corr)@.cap {
            assert(final(corr)@.blocks =~= old(corr)@.blocks.push(chunk.bytes@).skip(1));
        }
    }
}

/// A position that is due on a connection goes out from the source that the
/// profile names, and from no other.
pub proof fn law_due_position_comes_from_the_chosen_source(
    link: &mut Link,
    run: &mut Run,
    fabricated: String,
    now: u64,
    receiver: &Option<String>,
    corr: &mut CorrQueue,
    out: &mut Outbox,
)
    requires
        call_ensures(
            Link::dispatch,
            (link, run, Output::GgaDue { fabricated }, now, receiver, corr, out),
            (),
        ),
    ensures
        old(run).job.gga_source == GgaSource::Manual && usable(
            old(run).job.manual_lat,
            old(run).job.manual_lon,
        ) ==> final(out)@ == old(out)@.push(Post::Send(fabricated@)),
        old(run).job.gga_source == GgaSource::Receiver ==> (receiver matches Some(raw)
            ==> final(out)@ == old(out)@.push(Post::Send(raw@ + seq!['\r', '\n']))),
        *final(run) == *old(run),
{
    reveal_strlit("\r\n");
    assert("\r\n"@ =~= seq!['\r', '\n']);
}

/// A position that was written counts, and is mirrored into the connection
/// log; one that was not is reported with its cause and asked for again.
pub proof fn law_written_positions_count(
    conn: &mut ConnState,
    sentence: &str,
    error: Option<&str>,
    out: &mut Outbox,
)
    requires
        call_ensures(on_gga_written, (conn, sentence, error, out), ()),
        old(conn).gga_sent < u32::MAX,
    ensures
        final(conn).gga_sent == old(conn).gga_sent + if error is None {
            1int
        } else {
            0
        },
        final(conn).streaming == old(conn).streaming,
        error is None ==> final(out)@.len() == old(out)@.len() + 1 && final(out)@.last() is Conn,
        error matches Some(e) ==> final(out)@.last() == Post::GgaMissed && (
        final(out)@[final(out)@.len() - 2] matches Post::Event(line) && mentions(line, e@)),
{
    if let Some(e) = error {
        lemma_mentions("Failed to send GGA: "@, e@, Seq::empty());
        assert("Failed to send GGA: "@ + e@ + Seq::<char>::empty() =~= "Failed to send GGA: "@ + e@);
    }
}

/// A secured connection is handshaken before anything is sent, a plain one is
/// not; a certificate that TLS rejects is never tried again, trouble on the
/// way is, and a cancel is neither.
pub proof fn law_tls_comes_first(
    link: &mut Link,
    run: &mut Run,
    event: LinkEvent,
    now: u64,
    cancelled: bool,
    out: &mut Outbox,
    r: LinkAct,
)
    requires
        call_ensures(Link::drive_connection, (link, run, event, now, cancelled, out), r),
    ensures
        event == LinkEvent::TimeoutSet(Ok(())) ==> (if old(run).job.tls {
            r is Handshake
        } else {
            r is SendRequest
        }),
        event matches LinkEvent::Handshaken(result) ==> match result {
            Ok(_) => r is SendRequest,
            Err(TlsFail::Tls(_)) => r matches LinkAct::End(end) && end is FailedPermanent,
            Err(TlsFail::Io(_)) => r matches LinkAct::End(end) && end is Failed,
            Err(TlsFail::Cancelled) => r matches LinkAct::End(end) && end == SessionEnd::Closed(
                CloseReason::Cancelled,
            ),
        },
        event matches LinkEvent::RequestSent(result) ==> match result {
            Ok(_) => r is Dispatch,
            Err(_) => r matches LinkAct::End(end) && end is Failed,
        },
{
}

/// A certificate that was not checked is never called verified.
pub proof fn law_unverified_certificates_are_loud(
    link: &mut Link,
    run: &mut Run,
    info: TlsInfo,
    now: u64,
    cancelled: bool,
    out: &mut Outbox,
    r: LinkAct,
)
    requires
        call_ensures(
            Link::drive_connection,
            (link, run, LinkEvent::Handshaken(Ok(info)), now, cancelled, out),
            r,
        ),
    ensures
        final(out)@.len() >= old(out)@.len() + 2,
        final(out)@[old(out)@.len() as int] matches Post::Event(line) && final(out)@[(old(
            out,
        )@.len() + 1) as int] == Post::Conn(line) && mentions(line, info.protocol@) && mentions(
            line,
            info.cipher@,
        ) && (if old(run).job.allow_invalid_certs {
            mentions(line, "NOT verified"@)
        } else {
            mentions(line, ", certificate verified"@)
        }),
{
    let n = old(out)@.len() as int;
    let (a, b) = ("TLS handshake complete: "@, ", "@);
    let tail = if old(run).job.allow_invalid_certs {
        "certificate NOT verified (diagnostic mode)"@
    } else {
        "certificate verified"@
    };
    let (x, y) = (info.protocol@, info.cipher@);
    let line = a + x + b + y + b + tail;
    assert(final(out)@[n] == Post::Event(line));
    lemma_mentions(a, x, b + y + b + tail);
    assert(a + x + (b + y + b + tail) =~= line);
    lemma_mentions(a + x + b, y, b + tail);
    assert(a + x + b + y + (b + tail) =~= line);
    reveal_strlit(", ");
    reveal_strlit("NOT verified");
    reveal_strlit("certificate verified");
    reveal_strlit(", certificate verified");
    reveal_strlit("certificate NOT verified (diagnostic mode)");
    if old(run).job.allow_invalid_certs {
        assert(tail =~= tail.take(12) + "NOT verified"@ + tail.skip(24));
        lemma_mentions(a + x + b + y + b + tail.take(12), "NOT verified"@, tail.skip(24));
        assert(a + x + b + y + b + tail.take(12) + "NOT verified"@ + tail.skip(24) =~= line);
    } else {
        assert(b + tail =~= ", certificate verified"@);
        lemma_mentions(a + x + b + y, ", certificate verified"@, Seq::empty());
        assert(a + x + b + y + ", certificate verified"@ + Seq::<char>::empty() =~= line);
    }
}

/// Once the request is out the connection starts from nothing: it is not
/// streaming, has sent no position, counts bytes from the run's total and time
/// from now; the status says that data is awaited, and a capture is armed with
/// the job's own target and mountpoint, if the job has one.
pub proof fn law_connection_starts_fresh(
    link: &mut Link,
    run: &mut Run,
    now: u64,
    cancelled: bool,
    out: &mut Outbox,
    r: LinkAct,
)
    requires
        call_ensures(
            Link::drive_connection,
            (link, run, LinkEvent::RequestSent(Ok(())), now, cancelled, out),
            r,
        ),
    ensures
        !final(link).conn.streaming,
        final(link).conn.gga_sent == 0,
        final(link).conn.connected_at == now,
        final(link).conn.bytes_at_connect == old(run).total_bytes,
        final(link).conn.last_miss_note is None,
        ({
            let new = added(old(out)@, final(out)@);
            &&& keeps(old(out)@, final(out)@)
            &&& exists|i: int|
                0 <= i < new.len() && (#[trigger] new[i]) == Post::Ntrip(StatusView::WaitingForData)
            &&& match old(run).job.capture {
                Some(target) => new.last() == Post::CaptureBegin {
                    target: target@,
                    mount: old(run).job.mountpoint@,
                },
                None => forall|i: int|
                    0 <= i < new.len() ==> !((#[trigger] new[i]) is CaptureBegin),
            }
        }),
{
    let new = added(old(out)@, final(out)@);
    assert(final(out)@.take(old(out)@.len() as int) =~= old(out)@);
    assert(new[1] == Post::Ntrip(StatusView::WaitingForData));
}

/// The framing errors of a connection that is over are kept for the run, each
/// count by itself, and its capture is closed.
pub proof fn law_framing_errors_outlive_the_connection(
    link: &mut Link,
    run: &mut Run,
    crc_failures: u64,
    garbage_bytes: u64,
    now: u64,
    cancelled: bool,
    out: &mut Outbox,
    r: LinkAct,
)
    requires
        call_ensures(
            Link::drive_connection,
            (
                link,
                run,
                LinkEvent::Drained { crc_failures, garbage_bytes },
                now,
                cancelled,
                out,
            ),
            r,
        ),
        old(run).crc_base + crc_failures <= u64::MAX,
        old(run).garbage_base + garbage_bytes <= u64::MAX,
    ensures
        old(link).end matches Some(end) ==> {
            &&& r == LinkAct::End(end)
            &&& final(run).crc_base == old(run).crc_base + crc_failures
            &&& final(run).garbage_base == old(run).garbage_base + garbage_bytes
            &&& final(run).total_bytes == old(run).total_bytes
            &&& old(run).job.capture is Some ==> final(out)@ == old(out)@.push(Post::CaptureEnd)
            &&& old(run).job.capture is None ==> final(out)@ == old(out)@
        },
        old(link).end is None ==> *final(run) == *old(run) && final(out)@ == old(out)@ && (
        if cancelled {
            r is CancelSession
        } else {
            r is Read
        }),
{
}

/// Received bytes are handed to the session whether or not the run was
/// cancelled; a connection that broke is a cancel when the user wanted it and
/// the caster's doing when not.
pub proof fn law_reads_are_told_apart(
    link: &mut Link,
    run: &mut Run,
    outcome: ReadOutcome,
    now: u64,
    cancelled: bool,
    out: &mut Outbox,
    r: LinkAct,
)
    requires
        call_ensures(
            Link::drive_connection,
            (link, run, LinkEvent::Read(outcome), now, cancelled, out),
            r,
        ),
    ensures
        outcome is Data ==> r == LinkAct::Tell(SessionCall::Bytes),
        outcome is TimedOut ==> r == LinkAct::Tell(SessionCall::Nothing),
        !(outcome is Data || outcome is TimedOut) ==> r == LinkAct::Tell(
            if cancelled {
                SessionCall::Cancel
            } else {
                SessionCall::RemoteClose
            },
        ),
        *final(run) == *old(run),
        final(out)@ != old(out)@ ==> outcome is Failed && !cancelled,
{
}

/// What a close is told: the response that was not understood is kept byte for
/// byte, a sourcetable that came in place of the stream is published byte for
/// byte, both logs get the same lines, and a connection that sent a position
/// gets no hint about sending one.
pub proof fn law_close_is_told(
    run: &Run,
    conn: &ConnState,
    now: u64,
    reason: &CloseReason,
    out: &mut Outbox,
)
    requires
        call_ensures(Run::on_close, (run, conn, now, reason, out), ()),
    ensures
        ({
            let new = added(old(out)@, final(out)@);
            &&& keeps(old(out)@, final(out)@)
            &&& (reason matches CloseReason::UnknownResponse { raw } ==> raw@.len() > 0 ==> new[0]
                == Post::UnknownResponse(raw@))
            &&& (reason matches CloseReason::MountpointNotFound { sourcetable } ==> (
            new[0] matches Post::Sourcetable(bytes, _) && bytes == sourcetable@))
            &&& forall|i: int|
                0 <= i < new.len() ==> match #[trigger] new[i] {
                    Post::Event(line) => i + 1 < new.len() && new[i + 1] == Post::Conn(line),
                    Post::Conn(line) => i > 0 && new[i - 1] == Post::Event(line),
                    Post::UnknownResponse(_) => reason is UnknownResponse && i == 0,
                    Post::Sourcetable(_, _) => reason is MountpointNotFound && i == 0,
                    _ => false,
                }
            &&& conn.gga_sent > 0 || run.job.mountpoint@.len() == 0 || !(reason is RemoteClosed
                || reason is StreamSilence) ==> forall|i: int|
                #![trigger new[i]]
                3 <= i < new.len() ==> false
            &&& new.len() >= 2
        }),
{
    let new = added(old(out)@, final(out)@);
    assert(final(out)@.take(old(out)@.len() as int) =~= old(out)@);
}

/// The notes before a connection are made at most once per run.
pub proof fn law_notes_are_made_once(
    first: &mut Run,
    second: &mut Run,
    out: &mut Outbox,
    more: &mut Outbox,
)
    requires
        call_ensures(Run::connection_notices, (first, out), ()),
        call_ensures(Run::connection_notices, (second, more), ()),
        *old(second) == *final(first),
    ensures
        final(more)@ == old(more)@,
        *final(second) == *final(first),
{
}

} // verus!
