use executor::compliance::Denylist;
use executor::event::{LaunchEvent, Platform};
use executor::trader::{
    build_quote_url, build_swap_url, confirm_expired, first_accepted, gate_event,
    implied_price_micro, is_buy_action, min_out_amount, oco_multipliers, position_size_micro,
    redis_signal_to_launch_event, rpc_endpoints, rpc_url, slippage_sample, RiskConfig,
    SkipReason, TradeSignal, DEFAULT_LIQUIDITY_THRESHOLD, DEFAULT_LOSS_PCT,
    DEFAULT_POSITION_SIZE_PCT, DEFAULT_PROFIT_MULT,
};

fn event(mint: &[u8], creator: &[u8], holders_60: u32, lp: u64, platform: Platform) -> LaunchEvent {
    LaunchEvent {
        mint: mint.to_vec(),
        creator: creator.to_vec(),
        holders_60,
        lp,
        platform,
        amount_usdc: None,
        max_slippage: None,
    }
}

fn default_config() -> RiskConfig {
    RiskConfig::from_values(None, None, None, None)
}

#[test]
fn test_rpc_url_fallback() {
    // Default fallback when nothing is configured.
    let url = rpc_url(None, None, None, false);
    assert_eq!(url, b"https://api.devnet.solana.com".to_vec());
    let url = rpc_url(None, None, None, true);
    assert_eq!(url, b"http://127.0.0.1:8899".to_vec());

    // The primary variable takes priority.
    let url = rpc_url(Some(b"http://custom.example.com".to_vec()), None, None, false);
    assert_eq!(url, b"http://custom.example.com".to_vec());

    // The fallback chain.
    let url = rpc_url(None, Some(b"http://fallback.example.com".to_vec()), None, false);
    assert_eq!(url, b"http://fallback.example.com".to_vec());
}

#[test]
fn config_defaults_apply() {
    let cfg = default_config();
    assert_eq!(cfg.position_size_pct, DEFAULT_POSITION_SIZE_PCT);
    assert_eq!(cfg.liquidity_threshold, DEFAULT_LIQUIDITY_THRESHOLD);
    assert_eq!(cfg.auto_sell_profit_mult, DEFAULT_PROFIT_MULT);
    assert_eq!(cfg.auto_sell_loss_pct, DEFAULT_LOSS_PCT);
}

#[test]
fn config_parses_decimals_into_micro() {
    let cfg = RiskConfig::from_values(
        Some(b"2.5".to_vec()),
        Some(b"10000".to_vec()),
        Some(b"5.0".to_vec()),
        Some(b"20".to_vec()),
    );
    assert_eq!(cfg.position_size_pct, 2_500_000);
    assert_eq!(cfg.liquidity_threshold, 10_000_000_000);
    assert_eq!(cfg.auto_sell_profit_mult, 5_000_000);
    assert_eq!(cfg.auto_sell_loss_pct, 20_000_000);
    // Unparsable text falls back to the default.
    let bad = RiskConfig::from_values(Some(b"abc".to_vec()), None, None, None);
    assert_eq!(bad.position_size_pct, DEFAULT_POSITION_SIZE_PCT);
}

#[test]
fn denylisted_event_is_always_skipped() {
    let deny = Denylist::parse(b"BADCREATOR,BADMINT");
    let cfg = default_config();
    let by_creator = event(b"GOOD", b"BADCREATOR", 100, 99_000_000_000, Platform::PumpFun);
    assert_eq!(gate_event(&by_creator, &deny, &cfg), Some(SkipReason::Sanctioned));
    let by_mint = event(b"BADMINT", b"GOOD", 100, 99_000_000_000, Platform::PumpFun);
    assert_eq!(gate_event(&by_mint, &deny, &cfg), Some(SkipReason::Sanctioned));
}

#[test]
fn gate_applies_in_order() {
    let deny = Denylist::parse(b"BAD");
    let cfg = default_config();
    // Low score wins over everything.
    let low = event(b"BAD", b"X", 1, 0, Platform::PumpFun);
    assert_eq!(gate_event(&low, &deny, &cfg), Some(SkipReason::LowScore));
    // Good score, low liquidity.
    let thin = event(b"M", b"C", 100, 9_999_999_999, Platform::PumpFun);
    assert_eq!(gate_event(&thin, &deny, &cfg), Some(SkipReason::LowLiquidity));
    // LetsBonk requires the mint to contain "bonk", case-insensitively.
    let nobonk = event(b"PLAIN", b"C", 100, 99_000_000_000, Platform::LetsBonk);
    assert_eq!(gate_event(&nobonk, &deny, &cfg), Some(SkipReason::PlatformGuard));
    let bonk = event(b"SuperBONKtoken", b"C", 100, 99_000_000_000, Platform::LetsBonk);
    assert_eq!(gate_event(&bonk, &deny, &cfg), None);
    // A clean PumpFun event passes.
    let clean = event(b"M", b"C", 100, 99_000_000_000, Platform::PumpFun);
    assert_eq!(gate_event(&clean, &deny, &cfg), None);
}

#[test]
fn position_sizing_scales_equity() {
    // 2% of 5000 USDC.
    assert_eq!(position_size_micro(Some(5_000_000_000), 2_000_000), 100_000_000);
    // Fallback equity of 1000 USDC when the balance is unreadable.
    assert_eq!(position_size_micro(None, 2_000_000), 20_000_000);
}

#[test]
fn oco_multipliers_follow_config() {
    let cfg = default_config();
    let (tp, sl) = oco_multipliers(&cfg);
    assert_eq!(tp, 5_000_000);
    assert_eq!(sl, 800_000);
    // A full drawdown clamps the stop-loss multiplier at zero.
    let all_loss = RiskConfig { auto_sell_loss_pct: 150_000_000, ..cfg };
    assert_eq!(oco_multipliers(&all_loss).1, 0);
}

#[test]
fn min_out_scales_expected_output() {
    assert_eq!(min_out_amount(1_000_000, 5_000_000), 5_000_000);
    assert_eq!(min_out_amount(1_000_000, 800_000), 800_000);
    assert_eq!(min_out_amount(0, 5_000_000), 0);
}

#[test]
fn implied_price_is_out_per_in() {
    // 2 tokens out for 1 in: price 2.0.
    assert_eq!(implied_price_micro(1_000_000, 2_000_000), 2_000_000);
    assert_eq!(implied_price_micro(0, 2_000_000), 0);
    assert_eq!(implied_price_micro(2_000_000, 1_000_000), 500_000);
}

#[test]
fn slippage_sample_is_ratio_less_one() {
    // Exit at 1.5x entry: +0.5.
    assert_eq!(slippage_sample(1_000_000, 1_500_000), 500_000);
    // Exit at half: -0.5.
    assert_eq!(slippage_sample(1_000_000, 500_000), -500_000);
    // Zero on missing prices.
    assert_eq!(slippage_sample(0, 1_500_000), 0);
    assert_eq!(slippage_sample(1_000_000, 0), 0);
}

#[test]
fn confirmation_budget_is_ten_slots() {
    assert!(!confirm_expired(100, 100));
    assert!(!confirm_expired(100, 110));
    assert!(confirm_expired(100, 111));
    // A slot counter that moved backwards does not expire the wait.
    assert!(!confirm_expired(100, 90));
}

#[test]
fn first_accepted_signature_wins() {
    let results: Vec<Option<Vec<u8>>> =
        vec![None, Some(b"sig1".to_vec()), Some(b"sig2".to_vec())];
    assert_eq!(first_accepted(&results), Some(b"sig1".to_vec()));
    let all_rejected: Vec<Option<Vec<u8>>> = vec![None, None];
    assert_eq!(first_accepted(&all_rejected), None);
}

#[test]
fn endpoint_fanout_or_primary() {
    let fanout = rpc_endpoints(&Some(b"http://a, http://b".to_vec()), b"http://primary");
    assert_eq!(fanout, vec![b"http://a".to_vec(), b"http://b".to_vec()]);
    let single = rpc_endpoints(&None, b"http://primary");
    assert_eq!(single, vec![b"http://primary".to_vec()]);
}

#[test]
fn manual_signal_becomes_gate_passing_event() {
    let signal = TradeSignal {
        action: b"buy".to_vec(),
        token: b"TOKEN1".to_vec(),
        amount_usdc: 25_000_000,
        max_slippage: 10_000,
        source: b"console".to_vec(),
        platform: None,
    };
    assert!(is_buy_action(&signal));
    let ev = redis_signal_to_launch_event(&signal);
    assert_eq!(ev.mint, b"TOKEN1".to_vec());
    assert_eq!(ev.creator, b"redis_console".to_vec());
    assert_eq!(ev.holders_60, 1000);
    assert_eq!(ev.lp, 999_999_000_000);
    assert_eq!(ev.platform, Platform::PumpFun);
    assert_eq!(ev.amount_usdc, Some(25_000_000));
    // The synthetic event passes every gate.
    let deny = Denylist::new();
    assert_eq!(gate_event(&ev, &deny, &default_config()), None);

    let sell = TradeSignal { action: b"sell".to_vec(), ..signal };
    assert!(!is_buy_action(&sell));
}

#[test]
fn aggregator_urls_have_wire_shape() {
    let quote = build_quote_url(b"https://quote-api.jup.ag/v6", b"USDCMINT", b"OUTMINT", 1_000_000);
    assert_eq!(
        quote,
        b"https://quote-api.jup.ag/v6/quote?inputMint=USDCMINT&outputMint=OUTMINT&amount=1000000&slippageBps=100&onlyDirectRoutes=false&platformFeeBps=0".to_vec()
    );
    let swap = build_swap_url(b"https://quote-api.jup.ag/v6", b"USDCMINT", b"OUTMINT", 1_000_000, b"PUBKEY", 800_000);
    assert_eq!(
        swap,
        b"https://quote-api.jup.ag/v6/swap?inputMint=USDCMINT&outputMint=OUTMINT&amount=1000000&slippageBps=100&userPublicKey=PUBKEY&wrapUnwrapSOL=true&feeBps=0&minOutAmount=800000".to_vec()
    );
}
