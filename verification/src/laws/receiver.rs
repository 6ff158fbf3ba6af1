//! Laws of the receiver side: set-up, forwarding, sentences and their events.
use vstd::prelude::*;

use crate::bus::{Outbox, Post, SerialView};
use crate::laws::{added, keeps, lemma_mentions, mentions};
use crate::settings::SerialCfg;
use crate::text::{dec, texts, trim};
use crate::vocab::{NovatelFormat, ParityCfg};
use crate::workers::serial::{
    assembled, command_texts, is_sentence_line, line_texts, lossy_text, next_block,
    novatel_commands, on_position, pending_after, port_summary, Gga, LineAssembler, NmeaWatch,
    SerialAct, SerialEvent, SerialRead, SerialRun, SerialStage, WriteEvent, LINE_CAP,
};
use crate::workers::{CorrQueue, QueueModel};

verus! {

/// The tenths that a numeral of one digit, a point and one digit stands for.
pub open spec fn tenths_of(s: Seq<char>) -> Option<int> {
    if s.len() == 3 && '0' <= s[0] <= '9' && s[1] == '.' && '0' <= s[2] <= '9' {
        Some(10 * (s[0] as int - '0' as int) + (s[2] as int - '0' as int))
    } else {
        None
    }
}

/// The configuration of the receiver: it first stops what is logged, then asks
/// for positions and for speeds in the same period, which times the chosen
/// rate is one second, and last names the chosen correction format.
pub proof fn law_receiver_is_set_to_the_chosen_rate(
    format: NovatelFormat,
    rate_hz: u8,
    r: Vec<String>,
)
    requires
        call_ensures(novatel_commands, (format, rate_hz), r),
        rate_hz == 1 || rate_hz == 5 || rate_hz == 10,
    ensures
        r@.len() == 4,
        r@[0]@ == "unlogall thisport"@,
        exists|period: Seq<char>|
            {
                &&& (#[trigger] tenths_of(period)) matches Some(t) && t * rate_hz == 10
                &&& r@[1]@ == "log thisport gpggalong ontime "@ + period
                &&& r@[2]@ == "log thisport gprmc ontime "@ + period
            },
        mentions(r@[3]@, format.text()),
        r@[3]@ == "interfacemode thisport "@ + format.text() + " novatel"@,
{
    reveal_strlit("1.0");
    reveal_strlit("0.2");
    reveal_strlit("0.1");
    assert(texts(r@) == command_texts(format, rate_hz));
    assert(texts(r@).len() == 4);
    assert forall|i: int| 0 <= i < 4 implies r@[i]@ == texts(r@)[i] by {}
    let period = if rate_hz == 1 {
        "1.0"@
    } else if rate_hz == 10 {
        "0.1"@
    } else {
        "0.2"@
    };
    assert(tenths_of(period) matches Some(t) && t * rate_hz == 10);
    assert(r@[1]@ == texts(r@)[1]);
    assert(r@[2]@ == texts(r@)[2]);
    assert(r@[3]@ == texts(r@)[3]);
    lemma_mentions("interfacemode thisport "@, format.text(), " novatel"@);
}

/// The summary of a port names its speed, data bits, parity and stop bits, in
/// that order.
pub proof fn law_port_summary_is_in_order(cfg: &SerialCfg, r: String)
    requires
        call_ensures(port_summary, (cfg,), r),
    ensures
        exists|letter: char|
            {
                &&& r@ == dec(cfg.baud as nat) + seq![' '] + dec(cfg.data_bits as nat) + seq!['-']
                    + #[trigger] seq![letter] + seq!['-'] + dec(cfg.stop_bits as nat)
                &&& letter == (match cfg.parity {
                    ParityCfg::NoParity => 'N',
                    ParityCfg::Even => 'E',
                    ParityCfg::Odd => 'O',
                })
            },
{
    reveal_strlit(" ");
    reveal_strlit("-");
    reveal_strlit("N");
    reveal_strlit("E");
    reveal_strlit("O");
    let letter = match cfg.parity {
        ParityCfg::NoParity => 'N',
        ParityCfg::Even => 'E',
        ParityCfg::Odd => 'O',
    };
    assert(" "@ =~= seq![' ']);
    assert("-"@ =~= seq!['-']);
    assert("N"@ =~= seq!['N']);
    assert("E"@ =~= seq!['E']);
    assert("O"@ =~= seq!['O']);
    assert(r@ == dec(cfg.baud as nat) + seq![' '] + dec(cfg.data_bits as nat) + seq!['-']
        + seq![letter] + seq!['-'] + dec(cfg.stop_bits as nat));
}

/// A port that does not open ends the session with a reason that names the
/// port and the cause, in the log and in the status alike.
pub proof fn law_failed_open_is_explained(
    run: &mut SerialRun,
    cause: String,
    cancelled: bool,
    corr: &mut CorrQueue,
    out: &mut Outbox,
    r: (SerialAct, Vec<String>),
)
    requires
        call_ensures(
            SerialRun::step,
            (run, SerialEvent::Opened(Err(cause)), cancelled, corr, out),
            r,
        ),
    ensures
        r.0 is End,
        r.1@.len() == 0,
        final(corr)@ == old(corr)@,
        final(out)@.len() == old(out)@.len() + 2,
        final(out)@[old(out)@.len() as int] matches Post::Event(reason) && final(out)@.last()
            == Post::Serial(SerialView::Disconnected { reason }) && mentions(
            reason,
            old(run)@.cfg.port,
        ) && mentions(reason, cause@),
{
    let (a, b) = ("Could not open "@, ": "@);
    let reason = a + old(run)@.cfg.port + b + cause@;
    lemma_mentions(a, old(run)@.cfg.port, b + cause@);
    assert(a + old(run)@.cfg.port + (b + cause@) =~= reason);
    lemma_mentions(a + old(run)@.cfg.port + b, cause@, Seq::empty());
    assert(a + old(run)@.cfg.port + b + cause@ + Seq::<char>::empty() =~= reason);
    assert(final(out)@[old(out)@.len() as int] == Post::Event(reason));
    assert(texts(r.1@).len() == 0);
}

/// An open port is announced as connected under its own name, and the queue is
/// attached to it: with auto-configuration the first command goes out next,
/// without it no command does.
pub proof fn law_open_port_is_announced(
    run: &mut SerialRun,
    cancelled: bool,
    corr: &mut CorrQueue,
    out: &mut Outbox,
    r: (SerialAct, Vec<String>),
)
    requires
        call_ensures(
            SerialRun::step,
            (run, SerialEvent::Opened(Ok(())), cancelled, corr, out),
            r,
        ),
    ensures
        final(out)@.len() >= old(out)@.len() + 2,
        keeps(old(out)@, final(out)@),
        final(out)@[(old(out)@.len() + 1) as int] matches Post::Serial(
            SerialView::Connected { port, .. },
        ) && port == old(run)@.cfg.port,
        old(run)@.cfg.novatel_autoconfig ==> r.0 is Send && final(corr)@.active,
        !old(run)@.cfg.novatel_autoconfig && !cancelled ==> (r.0 is Read || r.0 is Write)
            && final(corr)@.active,
        !old(run)@.cfg.novatel_autoconfig && cancelled ==> r.0 is End && !final(corr)@.active,
{
    let m = old(run)@;
    assert(final(out)@.take(old(out)@.len() as int) =~= old(out)@);
    lemma_next(old(corr)@.with_active(true));
}

proof fn lemma_next(q: QueueModel)
    ensures
        next_block(q).1.active == q.active,
        next_block(q).1.cap == q.cap,
    decreases q.blocks.len(),
{
    if q.blocks.len() > 0 && q.blocks[0].len() == 0 {
        lemma_next(q.popped());
    }
}

/// What the port did not take of a block is offered again, from where it
/// stopped; a whole block gives way to the oldest one that is queued; a write
/// that fails or takes nothing ends the session.
pub proof fn law_blocks_are_forwarded_whole(
    run: &mut SerialRun,
    n: usize,
    corr: &mut CorrQueue,
    out: &mut Outbox,
    r: (SerialAct, Vec<String>),
)
    requires
        call_ensures(
            SerialRun::step,
            (run, SerialEvent::Port(WriteEvent::Wrote(n)), false, corr, out),
            r,
        ),
        old(run)@.wf(),
        old(run)@.block is Some,
        old(run)@.accepts(WriteEvent::Wrote(n)),
    ensures
        ({
            let (block, sent) = old(run)@.block->0;
            &&& n == 0 ==> r.0 is End && !final(corr)@.active
            &&& 0 < n && sent + n < block.len() ==> (r.0 matches SerialAct::Write(rest) && rest@
                == block.subrange(sent + n, block.len() as int)) && final(corr)@ == old(corr)@
                && final(out)@ == old(out)@
            &&& 0 < n && sent + n == block.len() && old(corr)@.blocks.len() == 0 ==> r.0 is Read
                && final(out)@ == old(out)@
            &&& 0 < n && sent + n == block.len() && old(corr)@.blocks.len() > 0 && old(
                corr,
            )@.blocks[0].len() > 0 ==> (r.0 matches SerialAct::Write(next) && next@ == old(
                corr,
            )@.blocks[0]) && final(corr)@.blocks == old(corr)@.blocks.skip(1) && final(out)@
                == old(out)@
            &&& r.1@.len() == 0
        }),
{
    let (block, sent) = old(run)@.block->0;
    assert(block.skip(sent + n) =~= block.subrange(sent + n, block.len() as int));
    assert(texts(r.1@).len() == 0);
    if old(corr)@.blocks.len() > 0 {
        assert(old(corr)@.blocks[0].skip(0) =~= old(corr)@.blocks[0]);
    }
    if 0 < n {
        assert(final(out)@ =~= old(out)@);
    }
}

/// A session that ends after its port was open detaches the queue and says
/// why: a cancel with no reason, a failure with one, which names its cause.
pub proof fn law_session_end_is_explained(
    run: &mut SerialRun,
    event: SerialEvent,
    cancelled: bool,
    corr: &mut CorrQueue,
    out: &mut Outbox,
    r: (SerialAct, Vec<String>),
)
    requires
        call_ensures(SerialRun::step, (run, event, cancelled, corr, out), r),
        r.0 is End,
        !(event is Opened),
        old(run)@.expects(event),
    ensures
        !final(corr)@.active,
        final(corr)@.blocks.len() == 0,
        final(out)@.last() matches Post::Serial(SerialView::Disconnected { reason }) && match event {
            SerialEvent::Sent(Err(e)) => mentions(reason, e@),
            SerialEvent::Port(WriteEvent::Failed(e)) => mentions(reason, e@),
            SerialEvent::Read(SerialRead::Failed(e)) => mentions(reason, e@),
            SerialEvent::Port(WriteEvent::Wrote(0)) => reason.len() > 0,
            _ => cancelled && reason.len() == 0,
        },
{
    let none = Seq::<char>::empty();
    match event {
        SerialEvent::Sent(Err(e)) => {
            let a = "Receiver command failed: "@;
            lemma_mentions(a, e@, none);
            assert(a + e@ + none =~= a + e@);
        },
        SerialEvent::Port(WriteEvent::Failed(e)) => {
            let a = "Serial write failed: "@;
            lemma_mentions(a, e@, none);
            assert(a + e@ + none =~= a + e@);
        },
        SerialEvent::Read(SerialRead::Failed(e)) => {
            let a = "Serial error: "@;
            lemma_mentions(a, e@, none);
            assert(a + e@ + none =~= a + e@);
        },
        SerialEvent::Port(WriteEvent::Wrote(0)) => {
            reveal_strlit("Serial write failed: ");
        },
        _ => {},
    }
}

/// A command that was accepted is logged word for word, and the next one, or
/// the traffic, follows.
pub proof fn law_accepted_commands_are_logged(
    run: &mut SerialRun,
    k: usize,
    corr: &mut CorrQueue,
    out: &mut Outbox,
    r: (SerialAct, Vec<String>),
)
    requires
        call_ensures(SerialRun::step, (run, SerialEvent::Sent(Ok(())), false, corr, out), r),
        old(run)@.wf(),
        old(run)@.stage == SerialStage::Configuring(k),
    ensures
        final(out)@.len() > old(out)@.len(),
        final(out)@[old(out)@.len() as int] matches Post::Event(line) && mentions(
            line,
            old(run)@.commands()[k as int],
        ),
        k < 3 ==> (r.0 matches SerialAct::Send(text) && text@ == old(run)@.commands()[k + 1]
            + seq!['\r', '\n']),
        k == 3 ==> r.0 is Write || r.0 is Read,
{
    let a = "Sent to receiver: "@;
    let c = old(run)@.commands()[k as int];
    lemma_mentions(a, c, Seq::empty());
    assert(a + c + Seq::<char>::empty() =~= a + c);
    reveal_strlit("\r\n");
    assert("\r\n"@ =~= seq!['\r', '\n']);
    assert(final(out)@[old(out)@.len() as int] == Post::Event(a + c));
}

/// Received bytes become lines at every line feed, and nowhere else: bytes
/// without one complete no line and are kept, and bytes up to the first one
/// complete exactly the line that was pending.
pub proof fn law_lines_end_at_line_feeds(
    a: &mut LineAssembler,
    data: &[u8],
    r: Vec<String>,
)
    requires
        call_ensures(LineAssembler::on_rx_bytes, (a, data), r),
        old(a).buf@.len() + data@.len() <= LINE_CAP,
        forall|i: int| 0 <= i < data@.len() - 1 ==> data@[i] != 10,
    ensures
        data@.len() == 0 || data@.last() != 10 ==> r@.len() == 0 && final(a).buf@ == old(a).buf@
            + data@,
        data@.len() > 0 && data@.last() == 10 ==> {
            let line = trim(lossy_text(old(a).buf@ + data@.drop_last()));
            &&& final(a).buf@.len() == 0
            &&& line.len() > 0 ==> r@.len() == 1 && r@[0]@ == line
            &&& line.len() == 0 ==> r@.len() == 0
        },
{
    let start = old(a).buf@;
    if data@.len() == 0 {
        assert(start + data@ =~= start);
        assert(texts(r@).len() == 0);
    } else if data@.last() != 10 {
        lemma_no_line(start, data@);
        assert(texts(r@).len() == 0);
    } else {
        let head = data@.drop_last();
        lemma_no_line(start, head);
        let lines = seq![start + head];
        assert(assembled(start, data@).1 =~= lines);
        assert(lines.drop_last() =~= Seq::<Seq<u8>>::empty());
        assert(line_texts(lines.drop_last()).len() == 0);
        let line = trim(lossy_text(start + head));
        assert(texts(r@) == line_texts(lines));
        if line.len() > 0 {
            assert(texts(r@).len() == 1);
            assert(texts(r@)[0] == r@[0]@);
        } else {
            assert(texts(r@).len() == 0);
        }
    }
}

proof fn lemma_no_line(start: Seq<u8>, data: Seq<u8>)
    requires
        start.len() + data.len() <= LINE_CAP,
        forall|i: int| 0 <= i < data.len() ==> data[i] != 10,
    ensures
        assembled(start, data) == (start + data, Seq::<Seq<u8>>::empty()),
    decreases data.len(),
{
    if data.len() == 0 {
        assert(start + data =~= start);
    } else {
        lemma_no_line(start, data.drop_last());
        assert(pending_after(start + data.drop_last(), data.last()) =~= start + data);
    }
}

/// A session's lines are those that its received bytes complete.
pub proof fn law_session_reads_lines(
    run: &mut SerialRun,
    data: Vec<u8>,
    cancelled: bool,
    corr: &mut CorrQueue,
    out: &mut Outbox,
    r: (SerialAct, Vec<String>),
    alone: &mut LineAssembler,
    slice: &[u8],
    lines: Vec<String>,
)
    requires
        call_ensures(
            SerialRun::step,
            (run, SerialEvent::Read(SerialRead::Data(data)), cancelled, corr, out),
            r,
        ),
        call_ensures(LineAssembler::on_rx_bytes, (alone, slice), lines),
        slice@ == data@,
        old(alone).buf@ == old(run)@.pending,
    ensures
        texts(r.1@) == texts(lines@),
        final(run)@.pending == final(alone).buf@,
{
}

/// Only what begins with a dollar sign is taken for a sentence.
pub proof fn law_sentences_begin_with_a_dollar(line: &str, r: bool)
    requires
        call_ensures(is_sentence_line, (line,), r),
    ensures
        r <==> line@.len() > 0 && line@.first() == '$',
{
}

/// A number of tenths with its point.
pub open spec fn tenth(t: i32) -> Seq<char> {
    dec((t / 10) as nat) + seq!['.'] + dec((t % 10) as nat)
}

/// What a position sentence gives rise to, value by value: a fix quality other
/// than the last one is told by both names, the old before the new, with a
/// warning exactly where an RTK solution is lost; satellites, dilution and
/// base station are told when they change, old before new.
pub proof fn law_fix_changes_are_told(watch: &mut NmeaWatch, g: &Gga, r: Vec<String>)
    requires
        call_ensures(NmeaWatch::on_gga, (watch, g), r),
    ensures
        ({
            let was = old(watch)@;
            let last = match was.quality {
                Some(q) => q,
                None => 0u8,
            };
            let changed = g.quality != last;
            let lost = (last == 4 && g.quality != 4) || (last == 5 && g.quality != 4 && g.quality
                != 5);
            let sats = was.sats is Some && was.sats != Some(g.sats);
            let hdop = was.hdop_tenths is Some && g.hdop_tenths is Some && was.hdop_tenths
                != g.hdop_tenths;
            let station = g.station_id is Some && was.station != g.station_id;
            let n = (if changed { 1int } else { 0 }) + (if changed && lost { 1int } else { 0 });
            let m = n + (if sats { 1int } else { 0 });
            let k = m + (if hdop { 1int } else { 0 });
            &&& r@.len() == k + (if station { 1int } else { 0 })
            &&& changed ==> r@[0]@ == was.quality_name + seq![' ', '-', '>', ' ']
                + g.quality_name@
            &&& changed && lost ==> (g.age_text matches Some(age) ==> mentions(r@[1]@, age@))
            &&& sats ==> r@[n]@ == "Satellites: "@ + dec(was.sats->0 as nat) + seq![
                ' ',
                '-',
                '>',
                ' ',
            ] + dec(g.sats as nat)
            &&& hdop && was.hdop_tenths->0 >= 0 && g.hdop_tenths->0 >= 0 ==> r@[m]@ == "HDOP: "@
                + tenth(was.hdop_tenths->0) + seq![' ', '-', '>', ' '] + tenth(g.hdop_tenths->0)
            &&& station && was.station is Some ==> r@[k]@ == "Base station ID: "@ + dec(
                was.station->0 as nat,
            ) + seq![' ', '-', '>', ' '] + dec(g.station_id->0 as nat)
            &&& station && was.station is None ==> r@[k]@ == "Base station ID: "@ + dec(
                g.station_id->0 as nat,
            )
            &&& final(watch)@.quality == Some(g.quality)
            &&& final(watch)@.quality_name == g.quality_name@
            &&& final(watch)@.sats == Some(g.sats)
            &&& g.hdop_tenths is Some ==> final(watch)@.hdop_tenths == g.hdop_tenths
            &&& g.hdop_tenths is None ==> final(watch)@.hdop_tenths == was.hdop_tenths
            &&& g.station_id is Some ==> final(watch)@.station == g.station_id
            &&& g.station_id is None ==> final(watch)@.station == was.station
        }),
{
    reveal_strlit(" -> ");
    assert(" -> "@ =~= seq![' ', '-', '>', ' ']);
    let was = old(watch)@;
    let all = was.lines(*g);
    assert(texts(r@) == all);
    assert(r@.len() == all.len());
    assert forall|i: int| 0 <= i < r@.len() implies r@[i]@ == #[trigger] all[i] by {
        assert(texts(r@)[i] == r@[i]@);
    }
    let q = was.quality_lines(*g);
    let s = was.sats_lines(*g);
    let h = was.hdop_lines(*g);
    let b = was.station_lines(*g);
    assert(all == q + s + h + b);
    if q.len() > 0 {
        assert(all[0] == q[0]);
    }
    if q.len() > 1 {
        assert(all[1] == q[1]);
        if let Some(age) = g.age_text {
            lemma_mentions("RTK degraded; correction data age was "@, age@, " s"@);
        }
    }
    if s.len() > 0 {
        assert(all[q.len() as int] == s[0]);
    }
    if h.len() > 0 {
        assert(all[(q.len() + s.len()) as int] == h[0]);
        reveal_strlit(".");
        assert("."@ =~= seq!['.']);
    }
    if b.len() > 0 {
        assert(all[(q.len() + s.len() + h.len()) as int] == b[0]);
    }
}

/// A valid position is recorded word for word, before its events, and is what
/// is passed on to the caster.
pub proof fn law_positions_are_recorded(
    watch: &mut NmeaWatch,
    g: &Gga,
    out: &mut Outbox,
    r: String,
)
    requires
        call_ensures(on_position, (watch, g, out), r),
    ensures
        r@ == g.raw@,
        keeps(old(out)@, final(out)@),
        ({
            let new = added(old(out)@, final(out)@);
            &&& new.len() > 0 && new[0] == Post::NmeaRecord(g.raw@)
            &&& forall|i: int| 1 <= i < new.len() ==> (#[trigger] new[i]) is Event
            &&& new.len() == 1 + old(watch)@.lines(*g).len()
        }),
{
    lemma_event_posts(old(out)@.push(Post::NmeaRecord(g.raw@)), old(watch)@.lines(*g));
    let first = old(out)@.push(Post::NmeaRecord(g.raw@));
    let n = old(out)@.len() as int;
    assert(final(out)@.take(n) =~= old(out)@) by {
        assert forall|i: int| 0 <= i < n implies final(out)@[i] == old(out)@[i] by {
            assert(final(out)@[i] == first[i]);
        }
    }
    assert(final(out)@[n] == first[n]);
    let new = added(old(out)@, final(out)@);
    assert forall|i: int| 1 <= i < new.len() implies (#[trigger] new[i]) is Event by {
        assert(new[i] == final(out)@[n + i]);
    }
}

proof fn lemma_event_posts(p: Seq<Post>, lines: Seq<Seq<char>>)
    ensures
        ({
            let q = crate::workers::serial::event_posts(p, lines);
            &&& q.len() == p.len() + lines.len()
            &&& forall|i: int| 0 <= i < p.len() ==> #[trigger] q[i] == p[i]
            &&& forall|i: int|
                p.len() <= i < q.len() ==> #[trigger] q[i] == Post::Event(lines[i - p.len()])
        }),
    decreases lines.len(),
{
    if lines.len() > 0 {
        lemma_event_posts(p, lines.drop_last());
    }
}

} // verus!
