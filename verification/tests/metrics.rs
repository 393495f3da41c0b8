use executor::event::Platform;
use executor::metrics::MetricsState;
use executor::risk::KillSwitch;

#[test]
fn killswitch_counter_increments() {
    let mut m = MetricsState::new();
    let before = m.killswitch_slippage;
    m.inc_killswitch(KillSwitch::Slippage);
    assert_eq!(m.killswitch_slippage, before + 1, "missing killswitch metric");
    assert_eq!(m.killswitch_equity_floor, 0);
    assert_eq!(m.killswitch_portfolio_stop_loss, 0);
}

#[test]
fn restart_counter_increments_across_startups() {
    let mut m = MetricsState::new();
    let before = m.restarts;
    m.inc_restart();
    assert_eq!(m.restarts, before + 1, "missing restarts metric");
}

#[test]
fn trade_counters_are_platform_labelled() {
    let mut m = MetricsState::new();
    m.inc_trades_submitted(Platform::PumpFun);
    m.inc_trades_submitted(Platform::PumpFun);
    m.inc_trades_submitted(Platform::LetsBonk);
    m.inc_trades_confirmed(Platform::PumpFun);
    assert_eq!(m.trades_submitted_pumpfun, 2);
    assert_eq!(m.trades_submitted_letsbonk, 1);
    assert_eq!(m.trades_confirmed_pumpfun, 1);
    assert_eq!(m.trades_confirmed_letsbonk, 0);
}

#[test]
fn oco_flow_counts_three_submissions_and_one_sample() {
    // One event through the fallback path: the buy leg and both exit legs are
    // each submitted, and one slippage sample is computed.
    let mut m = MetricsState::new();
    m.inc_trades_submitted(Platform::PumpFun);
    m.inc_trades_confirmed(Platform::PumpFun);
    m.inc_trades_submitted(Platform::PumpFun);
    m.inc_trades_submitted(Platform::PumpFun);
    assert!(m.trades_submitted_pumpfun >= 3, "expected >=3 trades submitted");
    // With fallback transactions both prices are zero, so the sample is zero.
    let sample = executor::trader::slippage_sample(0, 0);
    assert_eq!(sample, 0);
}

#[test]
fn gauges_hold_last_written_value() {
    let mut m = MetricsState::new();
    m.set_risk_equity_usdc(123_000_000);
    m.set_risk_last_slippage(-42);
    m.set_risk_slippage_threshold(7_000);
    m.set_risk_portfolio_stop_loss(900_000_000);
    assert_eq!(m.risk_equity_usdc, 123_000_000);
    assert_eq!(m.risk_last_slippage, -42);
    assert_eq!(m.risk_slippage_threshold, 7_000);
    assert_eq!(m.risk_portfolio_stop_loss_usd, 900_000_000);
}

#[test]
fn exposition_text_lists_every_metric() {
    let mut m = MetricsState::new();
    m.inc_trades_submitted(Platform::PumpFun);
    m.inc_killswitch(KillSwitch::Slippage);
    m.inc_restart();
    m.set_risk_equity_usdc(100_000_000);
    m.set_risk_last_slippage(-500_000);
    m.set_risk_slippage_threshold(294_130);
    m.set_risk_portfolio_stop_loss(750_000_000);
    let text = String::from_utf8(executor::metrics::render_metrics(&m)).unwrap();
    let expected = "trades_submitted_total{platform=\"pumpfun\"} 1\n\
                    trades_submitted_total{platform=\"letsbonk\"} 0\n\
                    trades_confirmed_total{platform=\"pumpfun\"} 0\n\
                    trades_confirmed_total{platform=\"letsbonk\"} 0\n\
                    killswitch_total{kind=\"equity_floor\"} 0\n\
                    killswitch_total{kind=\"slippage\"} 1\n\
                    killswitch_total{kind=\"portfolio_stop_loss\"} 0\n\
                    restarts_total 1\n\
                    risk_equity_usdc 100000000\n\
                    risk_last_slippage -500000\n\
                    risk_slippage_threshold 294130\n\
                    risk_portfolio_stop_loss_usd 750000000\n";
    assert_eq!(text, expected);
}

#[test]
fn counters_saturate_instead_of_wrapping() {
    let mut m = MetricsState::new();
    m.restarts = u64::MAX;
    m.inc_restart();
    assert_eq!(m.restarts, u64::MAX);
}
