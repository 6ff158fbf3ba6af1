//! Laws of the words that settings are kept in.
use vstd::prelude::*;

use crate::text::{lower, trim};
use crate::vocab::{
    BottomTab, CheckUpdates, DisplayId, GgaMode, GgaSource, NovatelFormat, ParityCfg, ProtocolCfg,
};

verus! {

/// A update checks is read from its own word, in any case and with any space around
/// it, and from no other; what is no such word is the usual one. It is written
/// as the word that it is read from.
pub proof fn law_update_words(
    v: CheckUpdates,
    word: &'static str,
    s: &str,
    r: Option<CheckUpdates>,
    d: CheckUpdates,
    fresh: CheckUpdates,
)
    requires
        call_ensures(CheckUpdates::as_str, (v,), word),
        call_ensures(CheckUpdates::from_id, (s,), r),
        call_ensures(CheckUpdates::from_id_or_default, (s,), d),
        call_ensures(CheckUpdates::default, (), fresh),
    ensures
        r == Some(CheckUpdates::Off) <==> lower(trim(s@)) == "off"@,
        r == Some(CheckUpdates::Startup) <==> lower(trim(s@)) == "startup"@,
        r == Some(CheckUpdates::Weekly) <==> lower(trim(s@)) == "weekly"@,
        word@ == "off"@ <==> v == CheckUpdates::Off,
        word@ == "startup"@ <==> v == CheckUpdates::Startup,
        word@ == "weekly"@ <==> v == CheckUpdates::Weekly,
        fresh == CheckUpdates::Weekly,
        r is None ==> d == fresh,
        r matches Some(x) ==> d == x,
{
    reveal_strlit("off");
    reveal_strlit("startup");
    reveal_strlit("weekly");
    assert(lower("off"@) =~= "off"@);
    assert(lower("startup"@) =~= "startup"@);
    assert(lower("weekly"@) =~= "weekly"@);
    assert("off"@.len() == 3);
    assert("startup"@.len() == 7);
    assert("weekly"@.len() == 6);
}

/// A parity is read from its own word, in any case and with any space around
/// it, and from no other; what is no such word is the usual one. It is written
/// as the word that it is read from.
pub proof fn law_parity_words(
    v: ParityCfg,
    word: &'static str,
    s: &str,
    r: Option<ParityCfg>,
    d: ParityCfg,
    fresh: ParityCfg,
)
    requires
        call_ensures(ParityCfg::as_str, (v,), word),
        call_ensures(ParityCfg::from_id, (s,), r),
        call_ensures(ParityCfg::from_id_or_default, (s,), d),
        call_ensures(ParityCfg::default, (), fresh),
    ensures
        r == Some(ParityCfg::NoParity) <==> lower(trim(s@)) == "none"@,
        r == Some(ParityCfg::Even) <==> lower(trim(s@)) == "even"@,
        r == Some(ParityCfg::Odd) <==> lower(trim(s@)) == "odd"@,
        word@ == "none"@ <==> v == ParityCfg::NoParity,
        word@ == "even"@ <==> v == ParityCfg::Even,
        word@ == "odd"@ <==> v == ParityCfg::Odd,
        fresh == ParityCfg::NoParity,
        r is None ==> d == fresh,
        r matches Some(x) ==> d == x,
{
    reveal_strlit("none");
    reveal_strlit("even");
    reveal_strlit("odd");
    assert(lower("none"@) =~= "none"@);
    assert(lower("even"@) =~= "even"@);
    assert(lower("odd"@) =~= "odd"@);
    assert("none"@.len() == 4);
    assert("even"@.len() == 4);
    assert("odd"@.len() == 3);
    assert("even"@[0] != "none"@[0]);
}

/// A correction format is read from its own word, in any case and with any space around
/// it, and from no other; what is no such word is the usual one. It is written
/// as the word that it is read from.
pub proof fn law_format_words(
    v: NovatelFormat,
    word: &'static str,
    s: &str,
    r: Option<NovatelFormat>,
    d: NovatelFormat,
    fresh: NovatelFormat,
)
    requires
        call_ensures(NovatelFormat::as_str, (v,), word),
        call_ensures(NovatelFormat::from_id, (s,), r),
        call_ensures(NovatelFormat::from_id_or_default, (s,), d),
        call_ensures(NovatelFormat::default, (), fresh),
    ensures
        r == Some(NovatelFormat::Rtcm) <==> lower(trim(s@)) == "rtcm"@,
        r == Some(NovatelFormat::Rtcmv3) <==> lower(trim(s@)) == "rtcmv3"@,
        r == Some(NovatelFormat::Cmr) <==> lower(trim(s@)) == "cmr"@,
        r == Some(NovatelFormat::Rtca) <==> lower(trim(s@)) == "rtca"@,
        r == Some(NovatelFormat::Omnistar) <==> lower(trim(s@)) == "omnistar"@,
        r == Some(NovatelFormat::Novatel) <==> lower(trim(s@)) == "novatel"@,
        word@ == "rtcm"@ <==> v == NovatelFormat::Rtcm,
        word@ == "rtcmv3"@ <==> v == NovatelFormat::Rtcmv3,
        word@ == "cmr"@ <==> v == NovatelFormat::Cmr,
        word@ == "rtca"@ <==> v == NovatelFormat::Rtca,
        word@ == "omnistar"@ <==> v == NovatelFormat::Omnistar,
        word@ == "novatel"@ <==> v == NovatelFormat::Novatel,
        fresh == NovatelFormat::Rtcmv3,
        r is None ==> d == fresh,
        r matches Some(x) ==> d == x,
{
    reveal_strlit("rtcm");
    reveal_strlit("rtcmv3");
    reveal_strlit("cmr");
    reveal_strlit("rtca");
    reveal_strlit("omnistar");
    reveal_strlit("novatel");
    assert(lower("rtcm"@) =~= "rtcm"@);
    assert(lower("rtcmv3"@) =~= "rtcmv3"@);
    assert(lower("cmr"@) =~= "cmr"@);
    assert(lower("rtca"@) =~= "rtca"@);
    assert(lower("omnistar"@) =~= "omnistar"@);
    assert(lower("novatel"@) =~= "novatel"@);
    assert("rtcm"@.len() == 4);
    assert("rtcmv3"@.len() == 6);
    assert("cmr"@.len() == 3);
    assert("rtca"@.len() == 4);
    assert("omnistar"@.len() == 8);
    assert("novatel"@.len() == 7);
    assert("rtca"@[3] != "rtcm"@[3]);
}

/// A protocol is read from its own word, in any case and with any space around
/// it, and from no other; what is no such word is the usual one. It is written
/// as the word that it is read from.
pub proof fn law_protocol_words(
    v: ProtocolCfg,
    word: &'static str,
    s: &str,
    r: Option<ProtocolCfg>,
    d: ProtocolCfg,
    fresh: ProtocolCfg,
)
    requires
        call_ensures(ProtocolCfg::as_str, (v,), word),
        call_ensures(ProtocolCfg::from_id, (s,), r),
        call_ensures(ProtocolCfg::from_id_or_default, (s,), d),
        call_ensures(ProtocolCfg::default, (), fresh),
    ensures
        r == Some(ProtocolCfg::Ntrip) <==> lower(trim(s@)) == "ntrip"@,
        r == Some(ProtocolCfg::Tcp) <==> lower(trim(s@)) == "tcp"@,
        word@ == "ntrip"@ <==> v == ProtocolCfg::Ntrip,
        word@ == "tcp"@ <==> v == ProtocolCfg::Tcp,
        fresh == ProtocolCfg::Ntrip,
        r is None ==> d == fresh,
        r matches Some(x) ==> d == x,
{
    reveal_strlit("ntrip");
    reveal_strlit("tcp");
    assert(lower("ntrip"@) =~= "ntrip"@);
    assert(lower("tcp"@) =~= "tcp"@);
    assert("ntrip"@.len() == 5);
    assert("tcp"@.len() == 3);
}

/// A position mode is read from its own word, in any case and with any space around
/// it, and from no other; what is no such word is the usual one. It is written
/// as the word that it is read from.
pub proof fn law_position_mode_words(
    v: GgaMode,
    word: &'static str,
    s: &str,
    r: Option<GgaMode>,
    d: GgaMode,
    fresh: GgaMode,
)
    requires
        call_ensures(GgaMode::as_str, (v,), word),
        call_ensures(GgaMode::from_id, (s,), r),
        call_ensures(GgaMode::from_id_or_default, (s,), d),
        call_ensures(GgaMode::default, (), fresh),
    ensures
        r == Some(GgaMode::Off) <==> lower(trim(s@)) == "off"@,
        r == Some(GgaMode::WhenRequired) <==> lower(trim(s@)) == "when_required"@,
        r == Some(GgaMode::Always) <==> lower(trim(s@)) == "always"@,
        word@ == "off"@ <==> v == GgaMode::Off,
        word@ == "when_required"@ <==> v == GgaMode::WhenRequired,
        word@ == "always"@ <==> v == GgaMode::Always,
        fresh == GgaMode::WhenRequired,
        r is None ==> d == fresh,
        r matches Some(x) ==> d == x,
{
    reveal_strlit("off");
    reveal_strlit("when_required");
    reveal_strlit("always");
    assert(lower("off"@) =~= "off"@);
    assert(lower("when_required"@) =~= "when_required"@);
    assert(lower("always"@) =~= "always"@);
    assert("off"@.len() == 3);
    assert("when_required"@.len() == 13);
    assert("always"@.len() == 6);
}

/// A position source is read from its own word, in any case and with any space around
/// it, and from no other; what is no such word is the usual one. It is written
/// as the word that it is read from.
pub proof fn law_position_source_words(
    v: GgaSource,
    word: &'static str,
    s: &str,
    r: Option<GgaSource>,
    d: GgaSource,
    fresh: GgaSource,
)
    requires
        call_ensures(GgaSource::as_str, (v,), word),
        call_ensures(GgaSource::from_id, (s,), r),
        call_ensures(GgaSource::from_id_or_default, (s,), d),
        call_ensures(GgaSource::default, (), fresh),
    ensures
        r == Some(GgaSource::Manual) <==> lower(trim(s@)) == "manual"@,
        r == Some(GgaSource::Receiver) <==> lower(trim(s@)) == "receiver"@,
        word@ == "manual"@ <==> v == GgaSource::Manual,
        word@ == "receiver"@ <==> v == GgaSource::Receiver,
        fresh == GgaSource::Receiver,
        r is None ==> d == fresh,
        r matches Some(x) ==> d == x,
{
    reveal_strlit("manual");
    reveal_strlit("receiver");
    assert(lower("manual"@) =~= "manual"@);
    assert(lower("receiver"@) =~= "receiver"@);
    assert("manual"@.len() == 6);
    assert("receiver"@.len() == 8);
}

/// A tab is read from its own word, in any case and with any space around
/// it, and from no other; what is no such word is the usual one. It is written
/// as the word that it is read from.
pub proof fn law_tab_words(
    v: BottomTab,
    word: &'static str,
    s: &str,
    r: Option<BottomTab>,
    d: BottomTab,
    fresh: BottomTab,
)
    requires
        call_ensures(BottomTab::as_str, (v,), word),
        call_ensures(BottomTab::from_id, (s,), r),
        call_ensures(BottomTab::from_id_or_default, (s,), d),
        call_ensures(BottomTab::default, (), fresh),
    ensures
        r == Some(BottomTab::Events) <==> lower(trim(s@)) == "events"@,
        r == Some(BottomTab::Conn) <==> lower(trim(s@)) == "conn"@,
        r == Some(BottomTab::Stream) <==> lower(trim(s@)) == "stream"@,
        r == Some(BottomTab::Sourcetable) <==> lower(trim(s@)) == "sourcetable"@,
        word@ == "events"@ <==> v == BottomTab::Events,
        word@ == "conn"@ <==> v == BottomTab::Conn,
        word@ == "stream"@ <==> v == BottomTab::Stream,
        word@ == "sourcetable"@ <==> v == BottomTab::Sourcetable,
        fresh == BottomTab::Events,
        r is None ==> d == fresh,
        r matches Some(x) ==> d == x,
{
    reveal_strlit("events");
    reveal_strlit("conn");
    reveal_strlit("stream");
    reveal_strlit("sourcetable");
    assert(lower("events"@) =~= "events"@);
    assert(lower("conn"@) =~= "conn"@);
    assert(lower("stream"@) =~= "stream"@);
    assert(lower("sourcetable"@) =~= "sourcetable"@);
    assert("events"@.len() == 6);
    assert("conn"@.len() == 4);
    assert("stream"@.len() == 6);
    assert("sourcetable"@.len() == 11);
    assert("stream"@[0] != "events"@[0]);
}

/// A readout is read from its own word, in any case and with any space around
/// it, and from no other; what is no such word is the usual one. It is written
/// as the word that it is read from.
pub proof fn law_readout_words(
    v: DisplayId,
    word: &'static str,
    s: &str,
    r: Option<DisplayId>,
    d: DisplayId,
    fresh: DisplayId,
)
    requires
        call_ensures(DisplayId::as_str, (v,), word),
        call_ensures(DisplayId::from_id, (s,), r),
        call_ensures(DisplayId::from_id_or_default, (s,), d),
        call_ensures(DisplayId::default, (), fresh),
    ensures
        r == Some(DisplayId::Age) <==> lower(trim(s@)) == "age"@,
        r == Some(DisplayId::Hdop) <==> lower(trim(s@)) == "hdop"@,
        r == Some(DisplayId::Vdop) <==> lower(trim(s@)) == "vdop"@,
        r == Some(DisplayId::Pdop) <==> lower(trim(s@)) == "pdop"@,
        r == Some(DisplayId::ElevationFeet) <==> lower(trim(s@)) == "elevation-feet"@,
        r == Some(DisplayId::ElevationMeters) <==> lower(trim(s@)) == "elevation-meters"@,
        r == Some(DisplayId::SpeedMph) <==> lower(trim(s@)) == "speed-mph"@,
        r == Some(DisplayId::SpeedMphSmoothed) <==> lower(trim(s@)) == "speed-mph-smoothed"@,
        r == Some(DisplayId::SpeedKmh) <==> lower(trim(s@)) == "speed-kmh"@,
        r == Some(DisplayId::SpeedKmhSmoothed) <==> lower(trim(s@)) == "speed-kmh-smoothed"@,
        r == Some(DisplayId::Heading) <==> lower(trim(s@)) == "heading"@,
        r == Some(DisplayId::DataAge) <==> lower(trim(s@)) == "data-age"@,
        r == Some(DisplayId::DataRate) <==> lower(trim(s@)) == "data-rate"@,
        r == Some(DisplayId::Nothing) <==> lower(trim(s@)) == "nothing"@,
        word@ == "age"@ <==> v == DisplayId::Age,
        word@ == "hdop"@ <==> v == DisplayId::Hdop,
        word@ == "vdop"@ <==> v == DisplayId::Vdop,
        word@ == "pdop"@ <==> v == DisplayId::Pdop,
        word@ == "elevation-feet"@ <==> v == DisplayId::ElevationFeet,
        word@ == "elevation-meters"@ <==> v == DisplayId::ElevationMeters,
        word@ == "speed-mph"@ <==> v == DisplayId::SpeedMph,
        word@ == "speed-mph-smoothed"@ <==> v == DisplayId::SpeedMphSmoothed,
        word@ == "speed-kmh"@ <==> v == DisplayId::SpeedKmh,
        word@ == "speed-kmh-smoothed"@ <==> v == DisplayId::SpeedKmhSmoothed,
        word@ == "heading"@ <==> v == DisplayId::Heading,
        word@ == "data-age"@ <==> v == DisplayId::DataAge,
        word@ == "data-rate"@ <==> v == DisplayId::DataRate,
        word@ == "nothing"@ <==> v == DisplayId::Nothing,
        fresh == DisplayId::Nothing,
        r is None ==> d == fresh,
        r matches Some(x) ==> d == x,
{
    reveal_strlit("age");
    reveal_strlit("hdop");
    reveal_strlit("vdop");
    reveal_strlit("pdop");
    reveal_strlit("elevation-feet");
    reveal_strlit("elevation-meters");
    reveal_strlit("speed-mph");
    reveal_strlit("speed-mph-smoothed");
    reveal_strlit("speed-kmh");
    reveal_strlit("speed-kmh-smoothed");
    reveal_strlit("heading");
    reveal_strlit("data-age");
    reveal_strlit("data-rate");
    reveal_strlit("nothing");
    assert(lower("age"@) =~= "age"@);
    assert(lower("hdop"@) =~= "hdop"@);
    assert(lower("vdop"@) =~= "vdop"@);
    assert(lower("pdop"@) =~= "pdop"@);
    assert(lower("elevation-feet"@) =~= "elevation-feet"@);
    assert(lower("elevation-meters"@) =~= "elevation-meters"@);
    assert(lower("speed-mph"@) =~= "speed-mph"@);
    assert(lower("speed-mph-smoothed"@) =~= "speed-mph-smoothed"@);
    assert(lower("speed-kmh"@) =~= "speed-kmh"@);
    assert(lower("speed-kmh-smoothed"@) =~= "speed-kmh-smoothed"@);
    assert(lower("heading"@) =~= "heading"@);
    assert(lower("data-age"@) =~= "data-age"@);
    assert(lower("data-rate"@) =~= "data-rate"@);
    assert(lower("nothing"@) =~= "nothing"@);
    assert("age"@.len() == 3);
    assert("hdop"@.len() == 4);
    assert("vdop"@.len() == 4);
    assert("pdop"@.len() == 4);
    assert("elevation-feet"@.len() == 14);
    assert("elevation-meters"@.len() == 16);
    assert("speed-mph"@.len() == 9);
    assert("speed-mph-smoothed"@.len() == 18);
    assert("speed-kmh"@.len() == 9);
    assert("speed-kmh-smoothed"@.len() == 18);
    assert("heading"@.len() == 7);
    assert("data-age"@.len() == 8);
    assert("data-rate"@.len() == 9);
    assert("nothing"@.len() == 7);
    assert("vdop"@[0] != "hdop"@[0]);
    assert("pdop"@[0] != "hdop"@[0]);
    assert("pdop"@[0] != "vdop"@[0]);
    assert("speed-kmh"@[6] != "speed-mph"@[6]);
    assert("speed-kmh-smoothed"@[6] != "speed-mph-smoothed"@[6]);
    assert("data-rate"@[0] != "speed-mph"@[0]);
    assert("data-rate"@[0] != "speed-kmh"@[0]);
    assert("nothing"@[0] != "heading"@[0]);
}

} // verus!
