use executor::risk::{
    balance_micro_from_lamports, effective_balance, equity_floor_check, kill_label,
    portfolio_stop_loss_check, slippage_check, EquityGuard, KillSwitch, KillSwitchListener,
    PortfolioGuard, SlippageSentinel, DEFAULT_EQUITY_FLOOR,
};

#[test]
fn equity_floor_breach_emits_killswitch() {
    // Balance override of 100 USDC against the default 300 USDC floor.
    let mut guard = EquityGuard::new(None);
    assert_eq!(guard.floor, DEFAULT_EQUITY_FLOOR);
    let balance = effective_balance(10_000, None);
    assert_eq!(balance, Some(100_000_000));
    let signal = guard.tick(balance, None);
    assert_eq!(signal, Some(KillSwitch::EquityFloor));
}

#[test]
fn equity_floor_rpc_balance() {
    // A low on-chain reading breaches once no override is set.
    let lamports = 100_000_000u64;
    let micro = balance_micro_from_lamports(lamports);
    let balance = effective_balance(u64::MAX, Some(micro));
    assert_eq!(balance, Some(100_000_000));
    let mut guard = EquityGuard::new(Some(300_000_000));
    assert_eq!(guard.tick(balance, None), Some(KillSwitch::EquityFloor));
}

#[test]
fn equity_floor_boundary_and_refresh() {
    let mut guard = EquityGuard::new(Some(300_000_000));
    // At the floor exactly: no signal.
    assert_eq!(guard.tick(Some(300_000_000), None), None);
    // An unreadable balance never signals.
    assert_eq!(guard.tick(None, None), None);
    // The refreshed floor applies from the next tick on.
    assert_eq!(guard.tick(Some(250_000_000), Some(200_000_000)), Some(KillSwitch::EquityFloor));
    assert_eq!(guard.floor, 200_000_000);
    assert_eq!(guard.tick(Some(250_000_000), None), None);
}

#[test]
fn slippage_breach_emits_killswitch() {
    // Twenty-nine benign samples of +0.001, then a -0.5 outlier.
    let mut sentinel = SlippageSentinel::new(None);
    for _ in 0..29 {
        let (signal, _) = sentinel.observe(1_000, None);
        assert_eq!(signal, None);
    }
    let (signal, threshold) = sentinel.observe(-500_000, None);
    assert_eq!(signal, Some(KillSwitch::Slippage));
    assert!(threshold > 0);
}

#[test]
fn slippage_warmup_never_breaches() {
    // Four crashes in a row are still within the warm-up.
    let mut sentinel = SlippageSentinel::new(None);
    for _ in 0..4 {
        let (signal, _) = sentinel.observe(-500_000, None);
        assert_eq!(signal, None);
    }
}

#[test]
fn slippage_constant_stream_has_zero_threshold() {
    // With identical samples the deviation estimate stays at zero, so even a
    // long run never breaches.
    let mut sentinel = SlippageSentinel::new(None);
    for _ in 0..50 {
        let (signal, threshold) = sentinel.observe(1_000, None);
        assert_eq!(signal, None);
        assert_eq!(threshold, 0);
    }
}

#[test]
fn portfolio_guard_fires_once_and_stops() {
    let pct = 25_000_000u64;  // 25 percent
    let mut guard = PortfolioGuard::new();
    // First reading initialises the peak; stop level is 75% of it.
    let (signal, stop) = guard.observe(1_000_000_000, pct);
    assert_eq!(signal, None);
    assert_eq!(stop, 750_000_000);
    assert_eq!(guard.peak, 1_000_000_000);
    // A higher reading raises the peak.
    let (signal, stop) = guard.observe(2_000_000_000, pct);
    assert_eq!(signal, None);
    assert_eq!(stop, 1_500_000_000);
    assert_eq!(guard.peak, 2_000_000_000);
    // A lower reading never lowers it.
    let (signal, _) = guard.observe(1_600_000_000, pct);
    assert_eq!(signal, None);
    assert_eq!(guard.peak, 2_000_000_000);
    // A drawdown beyond 25% of the peak fires.
    let (signal, _) = guard.observe(1_400_000_000, pct);
    assert_eq!(signal, Some(KillSwitch::PortfolioStopLoss));
    assert!(guard.stopped);
    // Once stopped, the guard is inert: no second signal, ever.
    let (signal, _) = guard.observe(1, pct);
    assert_eq!(signal, None);
    assert_eq!(guard.peak, 2_000_000_000);
}

#[test]
fn legacy_checks_match_their_rules() {
    assert_eq!(equity_floor_check(100_000_000, 300_000_000), Some(KillSwitch::EquityFloor));
    assert_eq!(equity_floor_check(300_000_000, 300_000_000), None);
    assert_eq!(slippage_check(300_000, 250_000), Some(KillSwitch::Slippage));
    assert_eq!(slippage_check(250_000, 250_000), None);
    // With only the current reading for a peak the stop never fires.
    assert_eq!(portfolio_stop_loss_check(1_000_000_000, 25_000_000), None);
    assert_eq!(portfolio_stop_loss_check(0, 25_000_000), None);
}

#[test]
fn listener_labels_and_exit_code() {
    assert_eq!(kill_label(KillSwitch::EquityFloor), "equity_floor");
    assert_eq!(kill_label(KillSwitch::Slippage), "slippage");
    assert_eq!(kill_label(KillSwitch::PortfolioStopLoss), "portfolio_stop_loss");
    let mut listener = KillSwitchListener::new();
    assert_eq!(listener.on_signal(KillSwitch::Slippage), Some(1));
}

#[test]
fn listener_acts_on_first_signal_only() {
    let mut listener = KillSwitchListener::new();
    assert_eq!(listener.on_signal(KillSwitch::EquityFloor), Some(1));
    assert_eq!(listener.on_signal(KillSwitch::Slippage), None);
    assert_eq!(listener.on_signal(KillSwitch::PortfolioStopLoss), None);
}
