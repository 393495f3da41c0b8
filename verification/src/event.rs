//! Launch events and platforms.
//!
//! A `LaunchEvent` identifies a newly observed token.  Identifiers are opaque
//! byte strings; the liquidity proxy `lp` and the optional per-event overrides
//! are micro-unit integers (one millionth of a USDC).

use vstd::prelude::*;
use vstd::string::StringSliceAdditionalSpecFns;

use crate::text::spec_lower;
use crate::text::eq_bytes;
use crate::text::to_ascii_lower;

verus! {

/// The finite set of launch platforms the feed can subscribe to.
#[derive(Clone, Copy, Debug, PartialEq, Eq, Structural)]
pub enum Platform {
    PumpFun,
    LetsBonk,
}

/// The platform a name denotes, compared case-insensitively.
pub open spec fn spec_parse_platform(s: Seq<u8>) -> Option<Platform> {
    if spec_lower(s) == "pumpfun".spec_bytes() {
        Some(Platform::PumpFun)
    } else if spec_lower(s) == "letsbonk".spec_bytes() {
        Some(Platform::LetsBonk)
    } else {
        None
    }
}

impl Platform {
    /// Parses a platform name, case-insensitively; `None` for an unknown name.
    pub fn from_str(s: &[u8]) -> (r: Option<Platform>)
        ensures
            r == spec_parse_platform(s@),
    {
        let lower = to_ascii_lower(s);
        if eq_bytes(lower.as_slice(), "pumpfun".as_bytes()) {
            Some(Platform::PumpFun)
        } else if eq_bytes(lower.as_slice(), "letsbonk".as_bytes()) {
            Some(Platform::LetsBonk)
        } else {
            None
        }
    }
}

/// A newly observed token launch.  Never mutated after enqueue, except for a
/// single enrichment pass that may overwrite `lp` with a freshly fetched value.
#[derive(Clone, Debug)]
pub struct LaunchEvent {
    /// Token identifier; non-empty for events produced by normalisation.
    pub mint: Vec<u8>,
    /// Creator account identifier.
    pub creator: Vec<u8>,
    /// Observed holder count at t+60s; 0 when unknown at emission.
    pub holders_60: u32,
    /// Liquidity proxy in micro-USD; 0 when unknown.
    pub lp: u64,
    pub platform: Platform,
    /// Optional position-size override, micro-USDC.
    pub amount_usdc: Option<u64>,
    /// Optional slippage override, micro units.
    pub max_slippage: Option<u64>,
}

/// A historical launch record, as replay archives describe one.  Money-like
/// fields are micro units.
#[derive(Clone, Debug)]
pub struct HistoricalEvent {
    pub timestamp: Vec<u8>,
    pub platform: Vec<u8>,
    pub token_address: Vec<u8>,
    pub creator_address: Vec<u8>,
    pub name: Vec<u8>,
    pub symbol: Vec<u8>,
    pub description: Vec<u8>,
    /// Market capitalisation, micro-USD.
    pub market_cap_usd: u64,
    /// Volume traded over the last day, micro-USD.
    pub trade_volume_24h: u64,
    pub is_rugpull: bool,
    pub raw_event_data: Vec<u8>,
}

/// Mathematical model of a `LaunchEvent`.
pub struct LaunchEventView {
    pub mint: Seq<u8>,
    pub creator: Seq<u8>,
    pub holders_60: u32,
    pub lp: u64,
    pub platform: Platform,
    pub amount_usdc: Option<u64>,
    pub max_slippage: Option<u64>,
}

impl View for LaunchEvent {
    type V = LaunchEventView;

    open spec fn view(&self) -> LaunchEventView {
        LaunchEventView {
            mint: self.mint@,
            creator: self.creator@,
            holders_60: self.holders_60,
            lp: self.lp,
            platform: self.platform,
            amount_usdc: self.amount_usdc,
            max_slippage: self.max_slippage,
        }
    }
}

} // verus!
