use executor::codec::{decode_event, encode_event};
use executor::event::{LaunchEvent, Platform};

fn sample_event() -> LaunchEvent {
    LaunchEvent {
        mint: b"DuMmyMint111".to_vec(),
        creator: b"Creator222".to_vec(),
        holders_60: 120,
        lp: 1_500_000,
        platform: Platform::PumpFun,
        amount_usdc: None,
        max_slippage: None,
    }
}

fn assert_round_trip(e: &LaunchEvent) {
    let line = encode_event(e);
    let back = decode_event(&line).expect("decode failed");
    assert_eq!(back.mint, e.mint);
    assert_eq!(back.creator, e.creator);
    assert_eq!(back.holders_60, e.holders_60);
    assert_eq!(back.lp, e.lp);
    assert_eq!(back.platform, e.platform);
    assert_eq!(back.amount_usdc, e.amount_usdc);
    assert_eq!(back.max_slippage, e.max_slippage);
}

#[test]
fn encoded_record_has_wire_shape() {
    let line = encode_event(&sample_event());
    let expected = r#"{"mint":"DuMmyMint111","creator":"Creator222","holders_60":120,"lp":1500000,"platform":"PumpFun","amount_usdc":null,"max_slippage":null}"#;
    assert_eq!(line, expected.as_bytes().to_vec());
    // The record is itself valid JSON.
    let v: serde_json::Value = serde_json::from_slice(&line).expect("valid json");
    assert_eq!(v["mint"], "DuMmyMint111");
    assert_eq!(v["holders_60"], 120);
}

#[test]
fn round_trip_plain_event() {
    assert_round_trip(&sample_event());
}

#[test]
fn round_trip_with_overrides_and_letsbonk() {
    let e = LaunchEvent {
        mint: b"bonkmint".to_vec(),
        creator: b"c".to_vec(),
        holders_60: 0,
        lp: 0,
        platform: Platform::LetsBonk,
        amount_usdc: Some(25_000_000),
        max_slippage: Some(10_000),
    };
    assert_round_trip(&e);
}

#[test]
fn round_trip_extreme_values() {
    let e = LaunchEvent {
        mint: b"m".to_vec(),
        creator: b"".to_vec(),
        holders_60: u32::MAX,
        lp: u64::MAX,
        platform: Platform::PumpFun,
        amount_usdc: Some(u64::MAX),
        max_slippage: Some(0),
    };
    assert_round_trip(&e);
}

#[test]
fn quote_bytes_in_identifiers_break_the_round_trip() {
    // Identifiers are written verbatim, so a quote byte inside one ends the
    // stored string early: such an event is outside the codec's domain.
    let e = LaunchEvent {
        mint: b"ab\"cd".to_vec(),
        creator: b"c".to_vec(),
        holders_60: 1,
        lp: 2,
        platform: Platform::PumpFun,
        amount_usdc: None,
        max_slippage: None,
    };
    let line = encode_event(&e);
    match decode_event(&line) {
        Some(back) => assert_ne!(back.mint, e.mint),
        None => {},
    }
}

#[test]
fn decode_refuses_malformed_records() {
    assert!(decode_event(b"").is_none());
    assert!(decode_event(b"not a record").is_none());
    assert!(decode_event(b"{\"mint\":\"m\"}").is_none());
    // Trailing bytes after the closing brace are refused.
    let mut line = encode_event(&sample_event());
    line.push(b' ');
    assert!(decode_event(&line).is_none());
    // A different field order is refused.
    let reordered =
        r#"{"creator":"c","mint":"m","holders_60":1,"lp":2,"platform":"PumpFun","amount_usdc":null,"max_slippage":null}"#;
    assert!(decode_event(reordered.as_bytes()).is_none());
    // An unknown platform name is refused.
    let unknown =
        r#"{"mint":"m","creator":"c","holders_60":1,"lp":2,"platform":"Other","amount_usdc":null,"max_slippage":null}"#;
    assert!(decode_event(unknown.as_bytes()).is_none());
    // An out-of-range holder count is refused.
    let big =
        r#"{"mint":"m","creator":"c","holders_60":4294967296,"lp":2,"platform":"PumpFun","amount_usdc":null,"max_slippage":null}"#;
    assert!(decode_event(big.as_bytes()).is_none());
}
