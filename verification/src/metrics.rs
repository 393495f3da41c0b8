//! Metric counters and gauges.
//!
//! The core's observability obligations as plain state: platform-labelled
//! trade counters, the kill-switch counter by kind, the restart counter, and
//! the four risk gauges (micro units).  The surrounding process mirrors this
//! state to its exposition endpoint.

use vstd::prelude::*;
use vstd::string::StringSliceAdditionalSpecFns;

use crate::event::Platform;
use crate::numeric::spec_dec_digits;
use crate::numeric::spec_i64_dec;
use crate::numeric::u64_to_dec;
use crate::numeric::i64_to_dec;
use crate::risk::KillSwitch;

verus! {

/// A counter bumped by one, saturating.
pub open spec fn spec_inc(x: u64) -> u64 {
    if x < u64::MAX {
        (x + 1) as u64
    } else {
        x
    }
}

fn inc(x: u64) -> (r: u64)
    ensures
        r == spec_inc(x),
{
    if x < u64::MAX {
        x + 1
    } else {
        x
    }
}

/// The metric state the core maintains.
#[derive(Clone, Copy, Debug, PartialEq, Eq, Structural)]
pub struct MetricsState {
    /// `trades_submitted{platform}` counters.
    pub trades_submitted_pumpfun: u64,
    pub trades_submitted_letsbonk: u64,
    /// `trades_confirmed{platform}` counters.
    pub trades_confirmed_pumpfun: u64,
    pub trades_confirmed_letsbonk: u64,
    /// `killswitch_total{kind}` counters.
    pub killswitch_equity_floor: u64,
    pub killswitch_slippage: u64,
    pub killswitch_portfolio_stop_loss: u64,
    /// `restarts` counter.
    pub restarts: u64,
    /// `risk_equity_usdc` gauge, micro-USDC.
    pub risk_equity_usdc: u64,
    /// `risk_last_slippage` gauge, micro.
    pub risk_last_slippage: i64,
    /// `risk_slippage_threshold` gauge, micro.
    pub risk_slippage_threshold: u64,
    /// `risk_portfolio_stop_loss_usd` gauge, micro-USDC.
    pub risk_portfolio_stop_loss_usd: u64,
}

impl MetricsState {
    /// All counters and gauges at zero.
    pub fn new() -> (r: MetricsState)
        ensures
            r == (MetricsState {
                trades_submitted_pumpfun: 0,
                trades_submitted_letsbonk: 0,
                trades_confirmed_pumpfun: 0,
                trades_confirmed_letsbonk: 0,
                killswitch_equity_floor: 0,
                killswitch_slippage: 0,
                killswitch_portfolio_stop_loss: 0,
                restarts: 0,
                risk_equity_usdc: 0,
                risk_last_slippage: 0,
                risk_slippage_threshold: 0,
                risk_portfolio_stop_loss_usd: 0,
            }),
    {
        MetricsState {
            trades_submitted_pumpfun: 0,
            trades_submitted_letsbonk: 0,
            trades_confirmed_pumpfun: 0,
            trades_confirmed_letsbonk: 0,
            killswitch_equity_floor: 0,
            killswitch_slippage: 0,
            killswitch_portfolio_stop_loss: 0,
            restarts: 0,
            risk_equity_usdc: 0,
            risk_last_slippage: 0,
            risk_slippage_threshold: 0,
            risk_portfolio_stop_loss_usd: 0,
        }
    }

    /// Bumps the submitted-trades counter of a platform.
    pub fn inc_trades_submitted(&mut self, platform: Platform)
        ensures
            *final(self) == match platform {
                Platform::PumpFun => MetricsState {
                    trades_submitted_pumpfun: spec_inc(old(self).trades_submitted_pumpfun),
                    ..*old(self)
                },
                Platform::LetsBonk => MetricsState {
                    trades_submitted_letsbonk: spec_inc(old(self).trades_submitted_letsbonk),
                    ..*old(self)
                },
            },
    {
        match platform {
            Platform::PumpFun => {
                self.trades_submitted_pumpfun = inc(self.trades_submitted_pumpfun);
            },
            Platform::LetsBonk => {
                self.trades_submitted_letsbonk = inc(self.trades_submitted_letsbonk);
            },
        }
    }

    /// Bumps the confirmed-trades counter of a platform.
    pub fn inc_trades_confirmed(&mut self, platform: Platform)
        ensures
            *final(self) == match platform {
                Platform::PumpFun => MetricsState {
                    trades_confirmed_pumpfun: spec_inc(old(self).trades_confirmed_pumpfun),
                    ..*old(self)
                },
                Platform::LetsBonk => MetricsState {
                    trades_confirmed_letsbonk: spec_inc(old(self).trades_confirmed_letsbonk),
                    ..*old(self)
                },
            },
    {
        match platform {
            Platform::PumpFun => {
                self.trades_confirmed_pumpfun = inc(self.trades_confirmed_pumpfun);
            },
            Platform::LetsBonk => {
                self.trades_confirmed_letsbonk = inc(self.trades_confirmed_letsbonk);
            },
        }
    }

    /// Bumps the kill-switch counter of a kind.
    pub fn inc_killswitch(&mut self, kind: KillSwitch)
        ensures
            *final(self) == match kind {
                KillSwitch::EquityFloor => MetricsState {
                    killswitch_equity_floor: spec_inc(old(self).killswitch_equity_floor),
                    ..*old(self)
                },
                KillSwitch::Slippage => MetricsState {
                    killswitch_slippage: spec_inc(old(self).killswitch_slippage),
                    ..*old(self)
                },
                KillSwitch::PortfolioStopLoss => MetricsState {
                    killswitch_portfolio_stop_loss: spec_inc(
                        old(self).killswitch_portfolio_stop_loss,
                    ),
                    ..*old(self)
                },
            },
    {
        match kind {
            KillSwitch::EquityFloor => {
                self.killswitch_equity_floor = inc(self.killswitch_equity_floor);
            },
            KillSwitch::Slippage => {
                self.killswitch_slippage = inc(self.killswitch_slippage);
            },
            KillSwitch::PortfolioStopLoss => {
                self.killswitch_portfolio_stop_loss = inc(self.killswitch_portfolio_stop_loss);
            },
        }
    }

    /// Bumps the process-restart counter.
    pub fn inc_restart(&mut self)
        ensures
            *final(self) == (MetricsState { restarts: spec_inc(old(self).restarts), ..*old(self) }),
    {
        self.restarts = inc(self.restarts);
    }

    /// Publishes the equity gauge.
    pub fn set_risk_equity_usdc(&mut self, micro: u64)
        ensures
            *final(self) == (MetricsState { risk_equity_usdc: micro, ..*old(self) }),
    {
        self.risk_equity_usdc = micro;
    }

    /// Publishes the last-slippage gauge.
    pub fn set_risk_last_slippage(&mut self, micro: i64)
        ensures
            *final(self) == (MetricsState { risk_last_slippage: micro, ..*old(self) }),
    {
        self.risk_last_slippage = micro;
    }

    /// Publishes the slippage-threshold gauge.
    pub fn set_risk_slippage_threshold(&mut self, micro: u64)
        ensures
            *final(self) == (MetricsState { risk_slippage_threshold: micro, ..*old(self) }),
    {
        self.risk_slippage_threshold = micro;
    }

    /// Publishes the portfolio stop-loss gauge.
    pub fn set_risk_portfolio_stop_loss(&mut self, micro: u64)
        ensures
            *final(self) == (MetricsState { risk_portfolio_stop_loss_usd: micro, ..*old(self) }),
    {
        self.risk_portfolio_stop_loss_usd = micro;
    }
}

/// The exposition text of a metric state: one `name value` line per counter
/// and gauge, counters labelled by platform or kind, gauges in micro units.
pub open spec fn spec_render_metrics(m: MetricsState) -> Seq<u8> {
    "trades_submitted_total{platform=\"pumpfun\"} ".spec_bytes() + spec_dec_digits(
        m.trades_submitted_pumpfun as nat,
    ) + "\ntrades_submitted_total{platform=\"letsbonk\"} ".spec_bytes() + spec_dec_digits(
        m.trades_submitted_letsbonk as nat,
    ) + "\ntrades_confirmed_total{platform=\"pumpfun\"} ".spec_bytes() + spec_dec_digits(
        m.trades_confirmed_pumpfun as nat,
    ) + "\ntrades_confirmed_total{platform=\"letsbonk\"} ".spec_bytes() + spec_dec_digits(
        m.trades_confirmed_letsbonk as nat,
    ) + "\nkillswitch_total{kind=\"equity_floor\"} ".spec_bytes() + spec_dec_digits(
        m.killswitch_equity_floor as nat,
    ) + "\nkillswitch_total{kind=\"slippage\"} ".spec_bytes() + spec_dec_digits(
        m.killswitch_slippage as nat,
    ) + "\nkillswitch_total{kind=\"portfolio_stop_loss\"} ".spec_bytes() + spec_dec_digits(
        m.killswitch_portfolio_stop_loss as nat,
    ) + "\nrestarts_total ".spec_bytes() + spec_dec_digits(m.restarts as nat)
        + "\nrisk_equity_usdc ".spec_bytes() + spec_dec_digits(m.risk_equity_usdc as nat)
        + "\nrisk_last_slippage ".spec_bytes() + spec_i64_dec(m.risk_last_slippage)
        + "\nrisk_slippage_threshold ".spec_bytes() + spec_dec_digits(
        m.risk_slippage_threshold as nat,
    ) + "\nrisk_portfolio_stop_loss_usd ".spec_bytes() + spec_dec_digits(
        m.risk_portfolio_stop_loss_usd as nat,
    ) + "\n".spec_bytes()
}

/// Renders the metric state as exposition text.
#[verifier::rlimit(50)]
pub fn render_metrics(m: &MetricsState) -> (r: Vec<u8>)
    ensures
        r@ == spec_render_metrics(*m),
{
    let mut out = vstd::slice::slice_to_vec(
        "trades_submitted_total{platform=\"pumpfun\"} ".as_bytes(),
    );
    let mut d = u64_to_dec(m.trades_submitted_pumpfun);
    out.append(&mut d);
    out.extend_from_slice("\ntrades_submitted_total{platform=\"letsbonk\"} ".as_bytes());
    let mut d = u64_to_dec(m.trades_submitted_letsbonk);
    out.append(&mut d);
    out.extend_from_slice("\ntrades_confirmed_total{platform=\"pumpfun\"} ".as_bytes());
    let mut d = u64_to_dec(m.trades_confirmed_pumpfun);
    out.append(&mut d);
    out.extend_from_slice("\ntrades_confirmed_total{platform=\"letsbonk\"} ".as_bytes());
    let mut d = u64_to_dec(m.trades_confirmed_letsbonk);
    out.append(&mut d);
    out.extend_from_slice("\nkillswitch_total{kind=\"equity_floor\"} ".as_bytes());
    let mut d = u64_to_dec(m.killswitch_equity_floor);
    out.append(&mut d);
    out.extend_from_slice("\nkillswitch_total{kind=\"slippage\"} ".as_bytes());
    let mut d = u64_to_dec(m.killswitch_slippage);
    out.append(&mut d);
    out.extend_from_slice("\nkillswitch_total{kind=\"portfolio_stop_loss\"} ".as_bytes());
    let mut d = u64_to_dec(m.killswitch_portfolio_stop_loss);
    out.append(&mut d);
    out.extend_from_slice("\nrestarts_total ".as_bytes());
    let mut d = u64_to_dec(m.restarts);
    out.append(&mut d);
    out.extend_from_slice("\nrisk_equity_usdc ".as_bytes());
    let mut d = u64_to_dec(m.risk_equity_usdc);
    out.append(&mut d);
    out.extend_from_slice("\nrisk_last_slippage ".as_bytes());
    let mut d = i64_to_dec(m.risk_last_slippage);
    out.append(&mut d);
    out.extend_from_slice("\nrisk_slippage_threshold ".as_bytes());
    let mut d = u64_to_dec(m.risk_slippage_threshold);
    out.append(&mut d);
    out.extend_from_slice("\nrisk_portfolio_stop_loss_usd ".as_bytes());
    let mut d = u64_to_dec(m.risk_portfolio_stop_loss_usd);
    out.append(&mut d);
    out.extend_from_slice("\n".as_bytes());
    proof {
        assert(out@ =~= spec_render_metrics(*m));
    }
    out
}

} // verus!
