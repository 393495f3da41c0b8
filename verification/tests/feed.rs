use std::time::{Duration, Instant};

use executor::event::Platform;
use executor::feed::{
    build_subscribe_request, derive_ws_url, extract_from_log, normalise_message, parse_platforms,
    MAX_MSG_LEN,
};

const FRAME: &str = r#"{"jsonrpc":"2.0","method":"logsNotification","params":{"result":{"context":{"slot":123},"value":{"signature":"abc...","err":null,"logs":["Program log: Instruction: Create","Program log: initialize2","Program log: mint: DuMmyMintAddress1111111111111111111111111111","Program log: creator: DummyCreatorAddress11111111111111111111111","Program log: holders_60: 120","Program log: lp: 1.5"]}},"subscription":456}}"#;

#[test]
fn normalise_under_2ms() {
    const N: usize = 100;
    for _ in 0..N {
        let start = Instant::now();
        let ev = normalise_message(FRAME.as_bytes(), Platform::PumpFun).expect("parse failed");
        assert_eq!(ev.mint, b"DuMmyMintAddress1111111111111111111111111111".to_vec());
        assert_eq!(ev.creator, b"DummyCreatorAddress11111111111111111111111".to_vec());
        assert_eq!(ev.holders_60, 120);
        assert_eq!(ev.lp, 1_500_000);
        assert!(start.elapsed() < Duration::from_millis(2), "latency > 2ms");
    }
}

#[test]
fn normalise_is_pure_bit_equal() {
    let a = normalise_message(FRAME.as_bytes(), Platform::PumpFun).unwrap();
    let b = normalise_message(FRAME.as_bytes(), Platform::PumpFun).unwrap();
    assert_eq!(a.mint, b.mint);
    assert_eq!(a.creator, b.creator);
    assert_eq!(a.holders_60, b.holders_60);
    assert_eq!(a.lp, b.lp);
    assert_eq!(a.platform, b.platform);
}

#[test]
fn oversized_frame_is_dropped() {
    // Pad the frame beyond the limit with trailing spaces; even well-formed
    // JSON of that size must be refused.
    let mut big = String::with_capacity(MAX_MSG_LEN + 2);
    big.push_str(FRAME);
    while big.len() <= MAX_MSG_LEN {
        big.push(' ');
    }
    assert!(normalise_message(big.as_bytes(), Platform::PumpFun).is_none());
    // At the limit itself the frame is still considered.
    assert_eq!(FRAME.len() <= MAX_MSG_LEN, true);
    assert!(normalise_message(FRAME.as_bytes(), Platform::PumpFun).is_some());
}

#[test]
fn wrong_method_is_refused() {
    let frame = FRAME.replace("logsNotification", "otherNotification");
    assert!(normalise_message(frame.as_bytes(), Platform::PumpFun).is_none());
}

#[test]
fn failed_transaction_is_refused() {
    let frame = FRAME.replace("\"err\":null", "\"err\":{\"code\":1}");
    assert!(normalise_message(frame.as_bytes(), Platform::PumpFun).is_none());
}

#[test]
fn missing_indicator_is_refused() {
    let frame = FRAME.replace("initialize2", "initialise");
    assert!(normalise_message(frame.as_bytes(), Platform::PumpFun).is_none());
}

#[test]
fn empty_mint_is_refused() {
    let frame = FRAME.replace("mint: DuMmyMintAddress1111111111111111111111111111", "mint: ");
    assert!(normalise_message(frame.as_bytes(), Platform::PumpFun).is_none());
}

#[test]
fn missing_holders_defaults_to_zero() {
    let frame = FRAME.replace("Program log: holders_60: 120", "Program log: other");
    let ev = normalise_message(frame.as_bytes(), Platform::PumpFun).unwrap();
    assert_eq!(ev.holders_60, 0);
    assert_eq!(ev.lp, 1_500_000);
}

#[test]
fn not_json_is_refused() {
    assert!(normalise_message(b"not json at all", Platform::PumpFun).is_none());
}

#[test]
fn extract_takes_first_token_after_prefix() {
    assert_eq!(
        extract_from_log(b"Program log: mint: ABC123 rest", b"Program log: mint: "),
        Some(b"ABC123".to_vec())
    );
    assert_eq!(
        extract_from_log(b"Program log: mint:  padded", b"Program log: mint: "),
        Some(b"padded".to_vec())
    );
    assert_eq!(extract_from_log(b"no such prefix", b"Program log: mint: "), None);
    assert_eq!(
        extract_from_log(b"Program log: mint: ", b"Program log: mint: "),
        Some(Vec::new())
    );
}

#[test]
fn platform_names_parse_case_insensitively() {
    assert_eq!(Platform::from_str(b"pumpfun"), Some(Platform::PumpFun));
    assert_eq!(Platform::from_str(b"PumpFun"), Some(Platform::PumpFun));
    assert_eq!(Platform::from_str(b"LETSBONK"), Some(Platform::LetsBonk));
    assert_eq!(Platform::from_str(b"unknown"), None);
}

#[test]
fn platform_list_parses_with_trim_and_skips() {
    let ps = parse_platforms(b"pumpfun, letsbonk ,junk");
    assert_eq!(ps, vec![Platform::PumpFun, Platform::LetsBonk]);
    let none = parse_platforms(b"junk,more junk");
    assert_eq!(none, Vec::<Platform>::new());
}

#[test]
fn ws_url_rewrites_scheme() {
    assert_eq!(derive_ws_url(b"https://api.devnet.solana.com"), b"wss://api.devnet.solana.com".to_vec());
    assert_eq!(derive_ws_url(b"http://127.0.0.1:8899"), b"ws://127.0.0.1:8899".to_vec());
    assert_eq!(derive_ws_url(b"wss://already.ws"), b"wss://already.ws".to_vec());
}

#[test]
fn subscribe_request_has_wire_shape() {
    let req = build_subscribe_request(b"PROGRAM111");
    let expected = r#"{"jsonrpc":"2.0","id":1,"method":"logsSubscribe","params":[{"mentions":["PROGRAM111"]},{"commitment":"finalized"}]}"#;
    assert_eq!(req, expected.as_bytes().to_vec());
    // The request is itself valid JSON with the documented fields.
    let v: serde_json::Value = serde_json::from_slice(&req).expect("valid json");
    assert_eq!(v["method"], "logsSubscribe");
    assert_eq!(v["params"][1]["commitment"], "finalized");
}
