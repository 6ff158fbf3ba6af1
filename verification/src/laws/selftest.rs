//! Laws of the headless run: what each flag asks for, and what the verdict
//! rests on.
use vstd::prelude::*;

use crate::bus::NtripStatus;
use crate::ieee::Real64;
use crate::laws::caster::usable;
use crate::laws::words::{numeral, reads};
use crate::laws::{lemma_mentions, lemma_mentions_across, lemma_mentions_more, mentions};
use crate::logging::CaptureTarget;
use crate::selftest::{
    attach_parent_console, console_line, gga_parts, job, parse_args, parse_gga, usage_error, Args,
    ArgsModel, Reading, Turn, Watch,
};
use crate::session::{NtripVersion, Transport};
use crate::state::AppEvent;
use crate::text::{dec, texts, trim};
use crate::vocab::{GgaMode, GgaSource};
use crate::workers::ntrip::{NtripJob, ReconnectPolicy};

verus! {

/// Whether two command lines ask for the same.
pub open spec fn same_args(a: Args, b: Args) -> bool {
    &&& a.host@ == b.host@ && a.port == b.port && a.mount@ == b.mount@
    &&& a.user@ == b.user@ && a.pass@ == b.pass@
    &&& a.v2 == b.v2 && a.tcp == b.tcp && a.tls == b.tls && a.insecure_tls == b.insecure_tls
    &&& a.gga == b.gga && a.seconds == b.seconds
    &&& match (a.capture, b.capture) {
        (Some(x), Some(y)) => x@ == y@,
        (None, None) => true,
        _ => false,
    }
}

proof fn lemma_same_args(a: Args, b: Args)
    requires
        a@ == b@,
    ensures
        same_args(a, b),
{
}

proof fn lemma_walk(
    args: Seq<Seq<char>>,
    more: Seq<Seq<char>>,
    readings: Seq<Reading>,
    others: Seq<Reading>,
    i: int,
    a: ArgsModel,
)
    requires
        0 <= i <= args.len(),
        readings.len() == args.len(),
        others.len() == more.len(),
        crate::selftest::parsed(args, readings, i, a) is Ok,
    ensures
        crate::selftest::parsed(args + more, readings + others, i, a) == crate::selftest::parsed(
            args + more,
            readings + others,
            args.len() as int,
            crate::selftest::parsed(args, readings, i, a)->Ok_0,
        ),
    decreases args.len() - i,
{
    if i < args.len() {
        assert((args + more)[i] == args[i]);
        if a.with_switch(args[i]) is Some {
            lemma_walk(args, more, readings, others, i + 1, a.with_switch(args[i])->0);
        } else {
            assert((args + more)[i + 1] == args[i + 1]);
            assert((readings + others)[i + 1] == readings[i + 1]);
            lemma_walk(
                args,
                more,
                readings,
                others,
                i + 2,
                a.with_value(args[i], args[i + 1], readings[i + 1])->Ok_0,
            );
        }
    }
}

/// The flags are different words.
proof fn lemma_flags()
    ensures
        "--selftest"@.len() == 10 && "--selftest"@[2] == 's',
        "--v2"@.len() == 4,
        "--tcp"@.len() == 5 && "--tcp"@[2] == 't' && "--tcp"@[3] == 'c',
        "--tls"@.len() == 5 && "--tls"@[2] == 't' && "--tls"@[3] == 'l',
        "--insecure-tls"@.len() == 14,
        "--host"@.len() == 6 && "--host"@[2] == 'h',
        "--port"@.len() == 6 && "--port"@[2] == 'p' && "--port"@[3] == 'o',
        "--mount"@.len() == 7,
        "--user"@.len() == 6 && "--user"@[2] == 'u',
        "--pass"@.len() == 6 && "--pass"@[2] == 'p' && "--pass"@[3] == 'a',
        "--gga"@.len() == 5 && "--gga"@[2] == 'g',
        "--capture"@.len() == 9 && "--capture"@[2] == 'c',
        "--seconds"@.len() == 9 && "--seconds"@[2] == 's',
{
    reveal_strlit("--selftest");
    reveal_strlit("--v2");
    reveal_strlit("--tcp");
    reveal_strlit("--tls");
    reveal_strlit("--insecure-tls");
    reveal_strlit("--host");
    reveal_strlit("--port");
    reveal_strlit("--mount");
    reveal_strlit("--user");
    reveal_strlit("--pass");
    reveal_strlit("--gga");
    reveal_strlit("--capture");
    reveal_strlit("--seconds");
}

/// A switch behind a good command line switches on its own setting and
/// changes nothing else, and a word that is no flag is refused by name.
pub proof fn law_switches_set_their_own(
    args: &Vec<String>,
    more: &Vec<String>,
    readings: &Vec<Reading>,
    others: &Vec<Reading>,
    a: Args,
    r: Result<Args, String>,
    flag: Seq<char>,
)
    requires
        call_ensures(parse_args, (args, readings), Ok(a)),
        call_ensures(parse_args, (more, others), r),
        texts(more@) == texts(args@).push(flag),
        readings@.len() == args@.len() && others@.len() == more@.len(),
        others@.take(readings@.len() as int) == readings@,
    ensures
        flag == "--selftest"@ ==> (r matches Ok(b) && same_args(a, b)),
        flag == "--v2"@ ==> (r matches Ok(b) && b.v2 && same_args(a, (Args { v2: a.v2, ..b }))),
        flag == "--tls"@ ==> (r matches Ok(b) && b.tls && same_args(
            a,
            (Args { tls: a.tls, ..b }),
        )),
        flag == "--insecure-tls"@ ==> (r matches Ok(b) && b.insecure_tls && same_args(
            a,
            (Args { insecure_tls: a.insecure_tls, ..b }),
        )),
        flag == "--tcp"@ ==> if a.gga is None {
            r matches Ok(b) && b.tcp && same_args(a, (Args { tcp: a.tcp, ..b }))
        } else {
            r is Err
        },
        flag.len() < 4 ==> (r matches Err(e) && mentions(e@, flag)),
        flag == "--host"@ || flag == "--port"@ || flag == "--mount"@ || flag == "--user"@ || flag
            == "--pass"@ || flag == "--gga"@ || flag == "--capture"@ || flag == "--seconds"@
            ==> (r matches Err(e) && mentions(e@, flag)),
{
    let (w, x) = (texts(args@), texts(more@));
    let ext = seq![flag];
    let er = seq![others@[readings@.len() as int]];
    assert(x =~= w + ext);
    assert(others@.len() == readings@.len() + 1);
    assert(others@ =~= readings@ + er);
    lemma_flags();
    lemma_walk(w, ext, readings@, er, 0, ArgsModel::fresh());
    let n = w.len() as int;
    assert(x[n] == flag);
    lemma_checked(w, readings@, 0, ArgsModel::fresh());
    reveal_with_fuel(crate::selftest::parsed, 3);
    lemma_mentions("unknown flag: "@, flag, Seq::empty());
    assert("unknown flag: "@ + flag + Seq::<char>::empty() =~= "unknown flag: "@ + flag);
    lemma_mentions(Seq::empty(), flag, " requires a value"@);
    assert(Seq::<char>::empty() + flag + " requires a value"@ =~= flag + " requires a value"@);
}

proof fn lemma_checked(args: Seq<Seq<char>>, readings: Seq<Reading>, i: int, a: ArgsModel)
    ensures
        crate::selftest::parsed(args, readings, i, a) matches Ok(b) ==> b.checked() == Ok::<
            ArgsModel,
            Seq<char>,
        >(b),
    decreases args.len() - i,
{
    if i < args.len() {
        if a.with_switch(args[i]) is Some {
            lemma_checked(args, readings, i + 1, a.with_switch(args[i])->0);
        } else if crate::selftest::parsed(args, readings, i, a) is Ok {
            lemma_checked(
                args,
                readings,
                i + 2,
                a.with_value(args[i], args[i + 1], readings[i + 1])->Ok_0,
            );
        }
    }
}

/// A flag with its value behind a good command line sets its own setting to
/// the value and changes nothing else.
#[verifier::spinoff_prover]
pub proof fn law_values_set_their_own(
    args: &Vec<String>,
    more: &Vec<String>,
    readings: &Vec<Reading>,
    others: &Vec<Reading>,
    a: Args,
    r: Result<Args, String>,
    flag: Seq<char>,
    v: Seq<char>,
)
    requires
        call_ensures(parse_args, (args, readings), Ok(a)),
        call_ensures(parse_args, (more, others), r),
        texts(more@) == texts(args@).push(flag).push(v),
        readings@.len() == args@.len() && others@.len() == more@.len(),
        others@.take(readings@.len() as int) == readings@,
    ensures
        flag == "--host"@ ==> if v.len() > 0 {
            r matches Ok(b) && b.host@ == v && same_args(a, (Args { host: a.host, ..b }))
        } else {
            r is Err
        },
        flag == "--mount"@ ==> (r matches Ok(b) && b.mount@ == v && same_args(
            a,
            (Args { mount: a.mount, ..b }),
        )),
        flag == "--user"@ ==> (r matches Ok(b) && b.user@ == v && same_args(
            a,
            (Args { user: a.user, ..b }),
        )),
        flag == "--pass"@ ==> (r matches Ok(b) && b.pass@ == v && same_args(
            a,
            (Args { pass: a.pass, ..b }),
        )),
        flag == "--capture"@ ==> (r matches Ok(b) && (b.capture matches Some(f) && f@ == v)
            && same_args(a, (Args { capture: a.capture, ..b }))),
        flag == "--port"@ && numeral(v) ==> if 1 <= reads(v) <= 65535 {
            r matches Ok(b) && b.port == reads(v) && same_args(a, (Args { port: a.port, ..b }))
        } else {
            r is Err
        },
        flag == "--seconds"@ && numeral(v) ==> if reads(v) <= 86_400 {
            r matches Ok(b) && b.seconds == reads(v) && same_args(
                a,
                (Args { seconds: a.seconds, ..b }),
            )
        } else {
            r is Err
        },
{
    let (w, x) = (texts(args@), texts(more@));
    let ext = seq![flag, v];
    let k = readings@.len() as int;
    let er = seq![others@[k], others@[k + 1]];
    assert(x =~= w + ext);
    assert(others@.len() == k + 2);
    assert(others@ =~= readings@ + er);
    lemma_flags();
    lemma_walk(w, ext, readings@, er, 0, ArgsModel::fresh());
    assert(x[k] == flag && x[k + 1] == v);
    lemma_checked(w, readings@, 0, ArgsModel::fresh());
    reveal_with_fuel(crate::selftest::parsed, 3);
    if numeral(v) {
        crate::laws::words::lemma_digits_value(v);
        assert(v[0] != '+');
        assert(crate::text::strip_plus(v) == v);
        assert(crate::text::all_digits(v));
    }
    if crate::selftest::takes_value(flag) {
        let last = a@.with_value(flag, v, others@[k + 1]);
        if let Ok(b) = r {
            if let Ok(m) = last {
                assert(b@ == m);
            }
        }
    }
}

/// The position flag gives the latitude and the longitude read from its value,
/// each to its own place, where they are a place on the earth; with a raw
/// stream it is refused.
#[verifier::spinoff_prover]
pub proof fn law_position_flag(
    args: &Vec<String>,
    more: &Vec<String>,
    readings: &Vec<Reading>,
    others: &Vec<Reading>,
    a: Args,
    r: Result<Args, String>,
    v: Seq<char>,
    lat: Real64,
    lon: Real64,
)
    requires
        call_ensures(parse_args, (args, readings), Ok(a)),
        call_ensures(parse_args, (more, others), r),
        texts(more@) == texts(args@).push("--gga"@).push(v),
        readings@.len() == args@.len() && others@.len() == more@.len(),
        others@.take(readings@.len() as int) == readings@,
        others@.last().lat == Some(lat) && others@.last().lon == Some(lon),
        v.contains(','),
    ensures
        r is Ok <==> usable(lat, lon) && !a.tcp,
        r matches Ok(b) ==> (b.gga matches Some(p) && p.0 == lat && p.1 == lon) && same_args(
            a,
            (Args { gga: a.gga, ..b }),
        ),
{
    let (w, x) = (texts(args@), texts(more@));
    let flag = "--gga"@;
    let ext = seq![flag, v];
    let k = readings@.len() as int;
    let er = seq![others@[k], others@[k + 1]];
    assert(x =~= w + ext);
    assert(others@.len() == k + 2);
    assert(others@ =~= readings@ + er);
    lemma_flags();
    lemma_walk(w, ext, readings@, er, 0, ArgsModel::fresh());
    assert(x[k] == flag && x[k + 1] == v);
    lemma_checked(w, readings@, 0, ArgsModel::fresh());
    reveal_with_fuel(crate::selftest::parsed, 3);
    let c = choose|c: int| 0 <= c < v.len() && v[c] == ',';
    assert(v[c] == ',');
    let last = a@.with_value(flag, v, others@[k + 1]);
    if let Ok(b) = r {
        if let Ok(m) = last {
            assert(b@ == m);
        }
    }
}

/// A command line of a caster alone leaves everything else at its start:
/// plain, without a name, for ten seconds.
pub proof fn law_plain_command_line(
    args: &Vec<String>,
    readings: &Vec<Reading>,
    r: Result<Args, String>,
    host: Seq<char>,
    port: Seq<char>,
)
    requires
        call_ensures(parse_args, (args, readings), r),
        readings@.len() == args@.len(),
        texts(args@) == seq!["--host"@, host, "--port"@, port],
        numeral(port) && 1 <= reads(port) <= 65535 && host.len() > 0,
    ensures
        r matches Ok(a) && {
            &&& a.host@ == host && a.port == reads(port)
            &&& a.mount@.len() == 0 && a.user@.len() == 0 && a.pass@.len() == 0
            &&& !a.v2 && !a.tcp && !a.tls && !a.insecure_tls
            &&& a.gga is None && a.capture is None && a.seconds == 10
        },
{
    lemma_flags();
    reveal_with_fuel(crate::selftest::parsed, 4);
    crate::laws::words::lemma_digits_value(port);
    assert(port[0] != '+');
    assert(crate::text::strip_plus(port) == port);
    assert(crate::text::all_digits(port));
    let w = texts(args@);
    let f = ArgsModel::fresh();
    assert(w[0] == "--host"@ && w[1] == host && w[2] == "--port"@ && w[3] == port);
    let g = f.with_value(w[0], w[1], readings@[1])->Ok_0;
    assert(g == ArgsModel { host, ..f });
    let h = g.with_value(w[2], w[3], readings@[3])->Ok_0;
    assert(h == ArgsModel { port: reads(port) as u16, ..g });
    assert(crate::selftest::parsed(w, readings@, 2, g) == h.checked());
}

/// Nothing runs without a caster to run against, for longer than a day, or
/// with a position that a raw stream would not send.
pub proof fn law_accepted_command_lines_can_run(
    args: &Vec<String>,
    readings: &Vec<Reading>,
    a: Args,
)
    requires
        call_ensures(parse_args, (args, readings), Ok(a)),
        readings@.len() == args@.len(),
    ensures
        a.host@.len() > 0 && a.port > 0 && a.seconds <= 86_400,
        a.tcp ==> a.gga is None,
        a.gga matches Some(p) ==> usable(p.0, p.1),
{
    crate::selftest::law_parsed_command_lines_are_complete(texts(args@), readings@);
}

/// A position is read in two parts, before and behind the first comma, and
/// taken where both are numbers that are a place on the earth.
pub proof fn law_positions_are_read(
    value: &str,
    reading: Reading,
    parts: Option<(String, String)>,
    r: Result<(Real64, Real64), String>,
    c: int,
)
    requires
        call_ensures(gga_parts, (value,), parts),
        call_ensures(parse_gga, (value, reading), r),
        0 <= c < value@.len() && value@[c] == ',',
        forall|j: int| 0 <= j < c ==> #[trigger] value@[j] != ',',
    ensures
        parts matches Some(p) && p.0@ == trim(value@.take(c)) && p.1@ == trim(value@.skip(c + 1)),
        r matches Ok(p) ==> reading.lat == Some(p.0) && reading.lon == Some(p.1) && usable(
            p.0,
            p.1,
        ),
        (reading.lat matches Some(lat) && reading.lon matches Some(lon) && usable(lat, lon))
            ==> r is Ok,
{
    let p = parts->0;
    assert(value@[c] == ',');
    let i = choose|i: int| #[trigger]
        crate::selftest::is_first_comma(value@, i) && p.0@ == trim(value@.take(i)) && p.1@ == trim(
            value@.skip(i + 1),
        );
    if i < c {
        assert(value@[i] != ',');
    } else if c < i {
        assert(value@[c] != ',');
    }
}

/// A mistake on the command line is named, and the exit says so.
pub proof fn law_usage_errors_are_named(e: &str, r: ([String; 2], u8))
    requires
        call_ensures(usage_error, (e,), r),
    ensures
        r.1 == 2,
        mentions(r.0@[0]@, e@),
        r.0@[1]@ == crate::selftest::USAGE@,
{
    lemma_mentions("error: "@, e@, Seq::empty());
    assert("error: "@ + e@ + Seq::<char>::empty() =~= "error: "@ + e@);
}

/// The run asks the caster for what the command line says, once: the name and
/// the password in their places, encryption where either flag asks for it, and
/// no check of certificates only where that is asked for.
pub proof fn law_run_follows_the_command_line(args: &Args, r: NtripJob)
    requires
        call_ensures(job, (args,), r),
    ensures
        r.host@ == args.host@ && r.port == args.port && r.mountpoint@ == args.mount@,
        r.username@ == args.user@ && r.password@ == args.pass@,
        r.version == NtripVersion::V2 <==> args.v2,
        r.transport == Transport::RawTcp <==> args.tcp,
        r.tls <==> args.tls || args.insecure_tls,
        r.allow_invalid_certs <==> args.insecure_tls,
        r.gga_mode == GgaMode::Always <==> args.gga is Some,
        r.gga_mode == GgaMode::Off <==> args.gga is None,
        args.gga matches Some(p) ==> r.gga_source == GgaSource::Manual && r.manual_lat == p.0
            && r.manual_lon == p.1,
        r.reconnect == ReconnectPolicy::OneShot && r.audio_alert@.len() == 0,
        args.capture matches Some(f) ==> (r.capture matches Some(CaptureTarget::File(p)) && p@
            == f@),
        args.capture is None ==> r.capture is None,
{
}

/// A stream of output is redirected where a console is there and the stream
/// has nowhere to go, each for itself.
pub proof fn law_console_is_used_where_needed(
    attached: bool,
    output: i64,
    error: i64,
    r: (bool, bool),
)
    requires
        call_ensures(attach_parent_console, (attached, output, error), r),
    ensures
        r.0 ==> attached && (output == 0 || output == -1),
        r.1 ==> attached && (error == 0 || error == -1),
        attached && output == 0 ==> r.0,
        attached && output == -1 ==> r.0,
        attached && error == 0 ==> r.1,
        attached && error == -1 ==> r.1,
{
}

/// The console shows each event line as it is, and of a table how many records
/// of each kind it has.
pub proof fn law_console_shows_events(ev: &AppEvent, r: Option<String>)
    requires
        call_ensures(console_line, (ev,), r),
    ensures
        r is Some <==> *ev is EventLine || *ev is SourcetableReady,
        *ev matches AppEvent::EventLine(t) ==> r->0@ == t@,
        *ev matches AppEvent::SourcetableReady { host, port, table } ==> {
            let t = r->0@;
            &&& mentions(t, host@) && mentions(t, dec(port as nat))
            &&& mentions(t, dec(table.strs@.len()) + " STR"@)
            &&& mentions(t, dec(table.casters@.len()) + " CAS"@)
            &&& mentions(t, dec(table.networks@.len()) + " NET"@)
            &&& mentions(t, dec(table.unparsed@.len()) + " unparsed"@)
        },
{
    if let AppEvent::SourcetableReady { host, port, table } = *ev {
        let t = r->0@;
        let e = Seq::<char>::empty();
        let a = "sourcetable from "@;
        let p = dec(port as nat);
        let (d1, d2, d3, d4) = (
            dec(table.strs@.len()),
            dec(table.casters@.len()),
            dec(table.networks@.len()),
            dec(table.unparsed@.len()),
        );
        let (s1, s2, s3, s4) = (" STR, "@, " CAS, "@, " NET, "@, " unparsed"@);
        reveal_strlit(" STR, ");
        reveal_strlit(" CAS, ");
        reveal_strlit(" NET, ");
        reveal_strlit(" STR");
        reveal_strlit(" CAS");
        reveal_strlit(" NET");
        let comma = seq![',', ' '];
        assert(s1 =~= " STR"@ + comma);
        assert(s2 =~= " CAS"@ + comma);
        assert(s3 =~= " NET"@ + comma);
        assert(t == a + host@ + ":"@ + p + ": "@ + d1 + s1 + d2 + s2 + d3 + s3 + d4 + s4);
        let h1 = a + host@ + ":"@;
        let h2 = h1 + p + ": "@;
        let h3 = h2 + d1 + s1;
        let h4 = h3 + d2 + s2;
        let h5 = h4 + d3 + s3;
        assert(t == h5 + d4 + s4);
        lemma_mentions(h1, p, ": "@);
        lemma_mentions(a, host@, ":"@);
        lemma_mentions_across(h2, d1, " STR"@, comma);
        lemma_mentions_across(h3, d2, " CAS"@, comma);
        lemma_mentions_across(h4, d3, " NET"@, comma);
        lemma_mentions_across(h5, d4, " unparsed"@, e);
        assert(h5 + d4 + (" unparsed"@ + e) =~= t) by {
            assert(" unparsed"@ + e =~= " unparsed"@);
        }
        lemma_mentions_more(h1, host@, p + ": "@);
        assert(h1 + (p + ": "@) =~= h2);
        lemma_mentions_more(h2, host@, d1 + s1);
        assert(h2 + (d1 + s1) =~= h3);
        lemma_mentions_more(h2, p, d1 + s1);
        lemma_mentions_more(h3, host@, d2 + s2);
        lemma_mentions_more(h3, p, d2 + s2);
        lemma_mentions_more(h3, d1 + " STR"@, d2 + s2);
        assert(h3 + (d2 + s2) =~= h4);
        lemma_mentions_more(h4, host@, d3 + s3);
        lemma_mentions_more(h4, p, d3 + s3);
        lemma_mentions_more(h4, d1 + " STR"@, d3 + s3);
        lemma_mentions_more(h4, d2 + " CAS"@, d3 + s3);
        assert(h4 + (d3 + s3) =~= h5);
        lemma_mentions_more(h5, host@, d4 + s4);
        lemma_mentions_more(h5, p, d4 + s4);
        lemma_mentions_more(h5, d1 + " STR"@, d4 + s4);
        lemma_mentions_more(h5, d2 + " CAS"@, d4 + s4);
        lemma_mentions_more(h5, d3 + " NET"@, d4 + s4);
        assert(h5 + (d4 + s4) =~= t);
    }
}

/// A run is given its seconds, then asked to stop, once; five seconds later it
/// is over in any case, and before only when it has stopped.
pub proof fn law_run_gets_its_time(
    start: u64,
    seconds: u64,
    w: Watch,
    watch: &mut Watch,
    now: u64,
    r: Turn,
)
    requires
        call_ensures(Watch::new, (start, seconds), w),
        call_ensures(Watch::turn, (watch, now), r),
        start + (seconds + 5) * 1_000_000_000 <= u64::MAX,
        old(watch).budget == w.budget && old(watch).hard_stop == w.hard_stop,
    ensures
        !w.cancelled && w.total_bytes == 0 && !w.table_seen && w.stopped is None,
        r == Turn::Over <==> old(watch).stopped is Some || now >= start + (seconds + 5)
            * 1_000_000_000,
        r == Turn::Cancel <==> old(watch).stopped is None && !old(watch).cancelled && start
            + seconds * 1_000_000_000 <= now < start + (seconds + 5) * 1_000_000_000,
        final(watch).cancelled <==> old(watch).cancelled || r == Turn::Cancel,
        final(watch).total_bytes == old(watch).total_bytes,
        final(watch).stopped == old(watch).stopped,
{
}

/// What is seen is remembered: the bytes, that a table came, and how it ended.
pub proof fn law_run_is_watched(a: &mut Watch, b: &mut Watch, ev: &AppEvent)
    requires
        call_ensures(Watch::note, (a, ev), ()),
        call_ensures(Watch::note_late, (b, ev), ()),
    ensures
        *ev matches AppEvent::RxBytes { total } ==> final(a).total_bytes == total,
        !(*ev is RxBytes) ==> final(a).total_bytes == old(a).total_bytes,
        final(a).table_seen <==> old(a).table_seen || *ev is SourcetableReady,
        *ev matches AppEvent::Ntrip(NtripStatus::Stopped { summary, failed }) ==> (final(a).stopped
            matches Some(s) && s.0@ == summary@ && s.1 == failed),
        !(*ev matches AppEvent::Ntrip(s) && s is Stopped) ==> final(a).stopped == old(a).stopped,
        final(b).table_seen <==> old(b).table_seen || *ev is SourcetableReady,
        final(b).total_bytes == old(b).total_bytes && final(b).stopped == old(b).stopped,
{
}

/// A run passes where it ended well and brought what it was for: a table where
/// no mountpoint was named, and otherwise corrections. It exits by that, and
/// says OK exactly then.
pub proof fn law_verdict_rests_on_delivery(w: &Watch, args: &Args, r: ([String; 2], u8))
    requires
        call_ensures(Watch::verdict, (w, args), r),
    ensures
        ({
            let wanted = if args.mount@.len() == 0 && !args.tcp {
                w.table_seen
            } else {
                w.total_bytes > 0
            };
            let good = wanted && (w.stopped matches Some(s) && !s.1);
            &&& good ==> r.1 == 0 && mentions(r.0@[1]@, "OK"@) && !mentions(r.0@[1]@.take(14), "FAIL"@)
            &&& !good ==> r.1 == 1 && mentions(r.0@[1]@, "FAIL"@)
            &&& w.stopped matches Some(s) ==> mentions(r.0@[1]@, s.0@)
            &&& mentions(r.0@[0]@, dec(w.total_bytes as nat))
        }),
{
    let line = r.0@[1]@;
    lemma_mentions("selftest: "@, dec(w.total_bytes as nat), " correction bytes total"@);
    reveal_strlit("selftest: OK (");
    reveal_strlit("selftest: FAIL (");
    reveal_strlit("selftest: FAIL (worker did not stop in time)");
    reveal_strlit("selftest: FAIL (connected and authenticated but 0 correction bytes in ");
    reveal_strlit("selftest: FAIL (no sourcetable delivered within ");
    reveal_strlit("OK");
    reveal_strlit("FAIL");
    let ok = line.subrange(10int, 10int + "OK"@.len());
    let fail = line.subrange(10int, 10int + "FAIL"@.len());
    if r.1 == 0 {
        assert(ok =~= "OK"@);
        let t = line.take(14);
        assert forall|i: int| 0 <= i <= t.len() - "FAIL"@.len() implies #[trigger] t.subrange(
            i,
            i + "FAIL"@.len(),
        ) != "FAIL"@ by {
            assert(t.subrange(i, i + "FAIL"@.len())[0] == t[i]);
            assert(t[i] == "selftest: OK ("@[i]);
        }
    } else {
        assert(fail =~= "FAIL"@);
    }
    if let Some(s) = w.stopped {
        let n = line.len() - 1 - s.0@.len();
        lemma_mentions(line.take(n), s.0@, ")"@);
        reveal_strlit(")");
        assert(line =~= line.take(n) + s.0@ + ")"@);
    }
}

} // verus!
