//! A caster's sourcetable, parsed.
use vstd::prelude::*;

use crate::ieee::Real64;

verus! {

/// One stream.
#[derive(Debug)]
pub struct StrRecord {
    pub mountpoint: String,
    pub identifier: String,
    pub format: String,
    pub carrier: String,
    pub nav_system: String,
    pub network: String,
    pub country: String,
    pub lat: Real64,
    pub lon: Real64,
    pub nmea_required: bool,
    pub solution: String,
    pub generator: String,
    pub auth: String,
    pub fee: bool,
    pub bitrate: u32,
}

/// One caster.
#[derive(Debug)]
pub struct CasRecord {
    pub host: String,
    pub port: u16,
    pub identifier: String,
    pub operator: String,
    pub nmea: String,
    pub country: String,
    pub lat: Real64,
    pub lon: Real64,
    pub misc: String,
}

/// One network.
#[derive(Debug)]
pub struct NetRecord {
    pub identifier: String,
    pub operator: String,
    pub auth: String,
    pub fee: String,
    pub web_net: String,
    pub web_str: String,
    pub web_reg: String,
    pub misc: String,
}

/// A whole sourcetable, records in the caster's order.
#[derive(Debug)]
pub struct SourceTable {
    pub strs: Vec<StrRecord>,
    pub casters: Vec<CasRecord>,
    pub networks: Vec<NetRecord>,
    /// Lines that are no record.
    pub unparsed: Vec<String>,
}

} // verus!
