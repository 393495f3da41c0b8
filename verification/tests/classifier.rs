use executor::classifier::{is_positive, score, SCORE_HIGH, SCORE_LOW};
use executor::event::{LaunchEvent, Platform};

fn event(mint: &str, creator: &str, holders_60: u32, lp_micro: u64, platform: Platform) -> LaunchEvent {
    LaunchEvent {
        mint: mint.as_bytes().to_vec(),
        creator: creator.as_bytes().to_vec(),
        holders_60,
        lp: lp_micro,
        platform,
        amount_usdc: None,
        max_slippage: None,
    }
}

#[test]
fn static_score_deterministic() {
    let evt = event("ABC", "XYZ", 60, 750_000, Platform::PumpFun);
    assert_eq!(score(&evt), SCORE_HIGH);

    let evt_low = event("DEF", "UVW", 49, 300_000, Platform::LetsBonk);
    assert_eq!(score(&evt_low), SCORE_LOW);
}

#[test]
fn score_boundary_is_inclusive() {
    // Exactly 50 holders and exactly 0.5 of liquidity score high.
    let at_boundary = event("ABC", "XYZ", 50, 500_000, Platform::PumpFun);
    assert_eq!(score(&at_boundary), 900);

    let holders_short = event("ABC", "XYZ", 49, 500_000, Platform::PumpFun);
    assert_eq!(score(&holders_short), 100);

    let lp_short = event("ABC", "XYZ", 50, 490_000, Platform::PumpFun);
    assert_eq!(score(&lp_short), 100);
}

#[test]
fn positive_classification_threshold() {
    assert!(is_positive(900));
    assert!(!is_positive(100));
    assert!(!is_positive(500));
    assert!(is_positive(501));
}

#[test]
fn score_is_deterministic_across_calls() {
    let evt = event("SAME", "SAME", 77, 2_000_000, Platform::PumpFun);
    assert_eq!(score(&evt), score(&evt));
}
