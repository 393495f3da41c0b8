//! The default classifier heuristic.
//!
//! Pure, synchronous, deterministic.  Scores are per-mille (a score of 900
//! stands for 0.9); the trader treats a score above 500 as positive.

use vstd::prelude::*;

use crate::event::LaunchEvent;
use crate::event::LaunchEventView;

verus! {

/// Per-mille score of a positively classified event.
pub const SCORE_HIGH: u32 = 900;

/// Per-mille score of a negatively classified event.
pub const SCORE_LOW: u32 = 100;

/// Per-mille threshold above which the trader executes.
pub const SCORE_POSITIVE_THRESHOLD: u32 = 500;

/// Holder count at and above which an event scores high.
pub const HOLDERS_BOUNDARY: u32 = 50;

/// Liquidity (micro-USD, standing for 0.5) at and above which an event scores
/// high.
pub const LP_BOUNDARY: u64 = 500_000;

/// What the default heuristic assigns: 900 per-mille when the event has at
/// least 50 holders and at least 0.5 of liquidity, both boundaries inclusive,
/// else 100 per-mille.
pub open spec fn spec_score(ev: LaunchEventView) -> u32 {
    if ev.holders_60 >= HOLDERS_BOUNDARY && ev.lp >= LP_BOUNDARY {
        SCORE_HIGH
    } else {
        SCORE_LOW
    }
}

/// Default scoring heuristic, in per-mille.
pub fn score(event: &LaunchEvent) -> (r: u32)
    ensures
        r == spec_score(event@),
{
    if event.holders_60 >= HOLDERS_BOUNDARY && event.lp >= LP_BOUNDARY {
        SCORE_HIGH
    } else {
        SCORE_LOW
    }
}

/// Whether a score classifies an event as worth trading.
pub fn is_positive(score_pm: u32) -> (r: bool)
    ensures
        r == (score_pm > SCORE_POSITIVE_THRESHOLD),
{
    score_pm > SCORE_POSITIVE_THRESHOLD
}

} // verus!
