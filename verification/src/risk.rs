//! Risk guards and the kill-switch.
//!
//! Three guards watch the account: an equity floor, a portfolio peak-drawdown
//! stop, and an adaptive slippage sentinel over a 20-period EMA of realised
//! slippage.  Each guard is a state machine here; the surrounding process
//! drives it on its polling cadence and broadcasts the signals it returns.
//!
//! All quantities are micro units: balances and floors in micro-USDC,
//! slippage samples in micro (one millionth of the price ratio), percentages
//! in micro-percent, and the sentinel's multiplier `k` in micro.

use vstd::prelude::*;
use vstd::arithmetic::div_mod::lemma_div_is_ordered;
use vstd::arithmetic::div_mod::lemma_div_multiples_vanish;

use crate::numeric::spec_div_trunc;
use crate::numeric::div_trunc;
use crate::numeric::isqrt_u128;

verus! {

/// A typed kill-switch signal; broadcast once, never stored.
#[derive(Clone, Copy, Debug, PartialEq, Eq, Structural)]
pub enum KillSwitch {
    EquityFloor,
    Slippage,
    PortfolioStopLoss,
}

/// Label of a kill-switch kind, as the listener counts and logs it.
pub fn kill_label(kind: KillSwitch) -> (r: &'static str)
    ensures
        kind == KillSwitch::EquityFloor ==> r@ == "equity_floor"@,
        kind == KillSwitch::Slippage ==> r@ == "slippage"@,
        kind == KillSwitch::PortfolioStopLoss ==> r@ == "portfolio_stop_loss"@,
{
    match kind {
        KillSwitch::EquityFloor => "equity_floor",
        KillSwitch::Slippage => "slippage",
        KillSwitch::PortfolioStopLoss => "portfolio_stop_loss",
    }
}

/// The kill-switch listener: acts on the first signal received and never
/// again.  The action is to terminate the process with status 1 after a brief
/// flush delay; the surrounding process performs it.
#[derive(Clone, Copy, Debug, PartialEq, Eq, Structural)]
pub struct KillSwitchListener {
    /// Whether a signal has been acted on.
    pub fired: bool,
}

impl KillSwitchListener {
    /// A listener that has not yet seen a signal.
    pub fn new() -> (r: KillSwitchListener)
        ensures
            r == (KillSwitchListener { fired: false }),
    {
        KillSwitchListener { fired: false }
    }

    /// One received signal: the first returns the exit status to terminate
    /// with, every later one is ignored.
    pub fn on_signal(&mut self, kind: KillSwitch) -> (exit_status: Option<i32>)
        ensures
            exit_status == if old(self).fired {
                None::<i32>
            } else {
                Some(1i32)
            },
            final(self).fired,
    {
        let _ = kind;
        if self.fired {
            None
        } else {
            self.fired = true;
            Some(1)
        }
    }
}

/// How many signals of a run the listener acts on.
pub open spec fn spec_listener_actions(signals: Seq<KillSwitch>) -> (KillSwitchListener, nat)
    decreases signals.len(),
{
    if signals.len() == 0 {
        (KillSwitchListener { fired: false }, 0)
    } else {
        let prev = spec_listener_actions(signals.drop_last());
        if prev.0.fired {
            prev
        } else {
            (KillSwitchListener { fired: true }, prev.1 + 1)
        }
    }
}

/// The listener acts on the first signal only: over any run it takes exactly
/// one action when any signal arrived, and none otherwise.
pub proof fn lemma_listener_first_signal_wins(signals: Seq<KillSwitch>)
    ensures
        spec_listener_actions(signals).0.fired <==> signals.len() > 0,
        spec_listener_actions(signals).1 == if signals.len() > 0 {
            1nat
        } else {
            0nat
        },
    decreases signals.len(),
{
    if signals.len() > 0 {
        lemma_listener_first_signal_wins(signals.drop_last());
    }
}

/// Default equity floor: 300 USDC, in micro.
pub const DEFAULT_EQUITY_FLOOR: u64 = 300_000_000;

/// Default portfolio stop-loss drawdown: 25 percent, in micro-percent.
pub const DEFAULT_STOP_LOSS_PCT: u64 = 25_000_000;

/// One hundred percent, in micro-percent.
pub const FULL_PCT: u64 = 100_000_000;

/// Default sentinel multiplier: `k = 2`, in micro.
pub const DEFAULT_SLIP_K: u64 = 2_000_000;

/// Default guard polling cadence, milliseconds.
pub const DEFAULT_POLL_MS: u64 = 5000;

/// The adopted lamport conversion: raw `getBalance` lamports scale by one
/// million to a "USDC" reading, so one lamport stands for one micro-USDC
/// here.  (Lamports per SOL would be a different scale, one billion; which of
/// the two the equity reading means is ambiguous upstream, and this library
/// adopts the one-million scale.)
pub const LAMPORTS_PER_USDC: u64 = 1_000_000;

/// Micro-USDC equivalent of a raw lamport balance, under the adopted
/// one-lamport-per-micro scale.
pub fn balance_micro_from_lamports(lamports: u64) -> (r: u64)
    ensures
        r == lamports,
{
    lamports
}

/// The balance the guards see: a test override in cents when one is set (the
/// sentinel value `u64::MAX` means none), else the on-chain reading.  An
/// override too large for micro units saturates.
pub fn effective_balance(override_cents: u64, chain_micro: Option<u64>) -> (r: Option<u64>)
    ensures
        override_cents != u64::MAX && override_cents <= u64::MAX / 10_000 ==> r == Some(
            (override_cents * 10_000) as u64,
        ),
        override_cents != u64::MAX && override_cents > u64::MAX / 10_000 ==> r == Some(u64::MAX),
        override_cents == u64::MAX ==> r == chain_micro,
{
    if override_cents != u64::MAX {
        if override_cents <= u64::MAX / 10_000 {
            proof {
                vstd::arithmetic::div_mod::lemma_fundamental_div_mod(u64::MAX as int, 10_000);
            }
            Some(override_cents * 10_000)
        } else {
            Some(u64::MAX)
        }
    } else {
        chain_micro
    }
}

// ---------------------------------------------------------------------------
// Equity-floor guard
// ---------------------------------------------------------------------------

/// The equity-floor guard: holds the current floor, refreshed opportunistically
/// each tick.
#[derive(Clone, Copy, Debug, PartialEq, Eq, Structural)]
pub struct EquityGuard {
    /// Micro-USDC floor under which the guard signals.
    pub floor: u64,
}

impl EquityGuard {
    /// A guard with the configured floor, or the default when none is set.
    pub fn new(configured_floor: Option<u64>) -> (r: EquityGuard)
        ensures
            r.floor == match configured_floor {
                Some(f) => f,
                None => DEFAULT_EQUITY_FLOOR,
            },
    {
        match configured_floor {
            Some(f) => EquityGuard { floor: f },
            None => EquityGuard { floor: DEFAULT_EQUITY_FLOOR },
        }
    }

    /// One polling tick: signals exactly when a balance reading arrived and
    /// lies under the current floor; then adopts a refreshed floor if one was
    /// read.  An unreadable balance never signals and never stops the guard.
    pub fn tick(&mut self, balance_micro: Option<u64>, refreshed_floor: Option<u64>) -> (signal:
        Option<KillSwitch>)
        ensures
            signal == (match balance_micro {
                Some(b) => if b < old(self).floor {
                    Some(KillSwitch::EquityFloor)
                } else {
                    None::<KillSwitch>
                },
                None => None::<KillSwitch>,
            }),
            final(self).floor == match refreshed_floor {
                Some(f) => f,
                None => old(self).floor,
            },
    {
        let signal = match balance_micro {
            Some(b) => if b < self.floor {
                Some(KillSwitch::EquityFloor)
            } else {
                None
            },
            None => None,
        };
        if let Some(f) = refreshed_floor {
            self.floor = f;
        }
        signal
    }
}

/// The floor check alone: a balance breaches exactly when it lies under the
/// floor.
pub fn equity_floor_check(balance_micro: u64, floor_micro: u64) -> (r: Option<KillSwitch>)
    ensures
        r == if balance_micro < floor_micro {
            Some(KillSwitch::EquityFloor)
        } else {
            None::<KillSwitch>
        },
{
    if balance_micro < floor_micro {
        Some(KillSwitch::EquityFloor)
    } else {
        None
    }
}

// ---------------------------------------------------------------------------
// Portfolio stop-loss guard
// ---------------------------------------------------------------------------

/// The portfolio peak-drawdown guard.  `peak` only ever rises; the guard is
/// one-shot: after firing it is stopped and never observes again.
#[derive(Clone, Copy, Debug, PartialEq, Eq, Structural)]
pub struct PortfolioGuard {
    /// Running maximum of observed equity, micro-USDC.
    pub peak: u64,
    /// Whether a first reading has arrived.
    pub initialised: bool,
    /// Whether the guard has fired; a stopped guard never changes again.
    pub stopped: bool,
}

/// A guard that has not seen a reading holds no peak.
pub open spec fn pg_wf(g: PortfolioGuard) -> bool {
    !g.initialised ==> g.peak == 0
}

/// The stop level: the peak diminished by the drawdown percentage.
pub open spec fn spec_stop_level(peak: u64, pct_micro: u64) -> int {
    (peak * (FULL_PCT - pct_micro)) / (FULL_PCT as int)
}

/// The peak after a reading: the first reading initialises it, later ones
/// only raise it.
pub open spec fn spec_pg_peak(g: PortfolioGuard, balance: u64) -> u64 {
    if !g.initialised {
        balance
    } else if balance > g.peak {
        balance
    } else {
        g.peak
    }
}

/// Whether a reading fires the stop: only a running guard fires, and only on
/// a balance strictly under the stop level.
pub open spec fn spec_pg_fire(g: PortfolioGuard, balance: u64, pct_micro: u64) -> bool {
    !g.stopped && (balance as int) < spec_stop_level(spec_pg_peak(g, balance), pct_micro)
}

/// The guard after a reading: unchanged when stopped, else the raised peak
/// and, on a fire, the stop.
pub open spec fn spec_pg_next(g: PortfolioGuard, balance: u64, pct_micro: u64) -> PortfolioGuard {
    if g.stopped {
        g
    } else {
        PortfolioGuard {
            peak: spec_pg_peak(g, balance),
            initialised: true,
            stopped: spec_pg_fire(g, balance, pct_micro),
        }
    }
}

impl PortfolioGuard {
    /// A fresh guard: no peak, not initialised, running.
    pub fn new() -> (r: PortfolioGuard)
        ensures
            r == (PortfolioGuard { peak: 0, initialised: false, stopped: false }),
            pg_wf(r),
    {
        PortfolioGuard { peak: 0, initialised: false, stopped: false }
    }

    /// One balance reading.  Returns the fire decision and the stop level to
    /// publish.  The peak never decreases, and a stopped guard is inert.
    pub fn observe(&mut self, balance_micro: u64, pct_micro: u64) -> (r: (Option<
        KillSwitch,
    >, u64))
        requires
            pct_micro <= FULL_PCT,
            pg_wf(*old(self)),
        ensures
            *final(self) == spec_pg_next(*old(self), balance_micro, pct_micro),
            r.0 == if spec_pg_fire(*old(self), balance_micro, pct_micro) {
                Some(KillSwitch::PortfolioStopLoss)
            } else {
                None::<KillSwitch>
            },
            r.1 == spec_stop_level(spec_pg_peak(*old(self), balance_micro), pct_micro),
            final(self).peak >= old(self).peak,
            pg_wf(*final(self)),
            old(self).stopped ==> *final(self) == *old(self) && r.0 is None,
    {
        let peak: u64 = if !self.initialised {
            balance_micro
        } else if balance_micro > self.peak {
            balance_micro
        } else {
            self.peak
        };
        proof {
            assert((peak as int) * ((FULL_PCT - pct_micro) as int) <= u128::MAX)
                by (nonlinear_arith)
                requires
                    peak <= u64::MAX,
                    pct_micro <= FULL_PCT,
                    FULL_PCT == 100_000_000u64,
            ;
        }
        let wide: u128 = (peak as u128) * ((FULL_PCT - pct_micro) as u128);
        let stop_wide: u128 = wide / (FULL_PCT as u128);
        proof {
            assert((peak as int) * ((FULL_PCT - pct_micro) as int) <= (peak as int) * (
            FULL_PCT as int)) by (nonlinear_arith)
                requires
                    pct_micro <= FULL_PCT,
                    peak >= 0,
            ;
            lemma_div_is_ordered(
                (peak as int) * ((FULL_PCT - pct_micro) as int),
                (peak as int) * (FULL_PCT as int),
                FULL_PCT as int,
            );
            lemma_div_multiples_vanish(peak as int, FULL_PCT as int);
            assert((peak as int) * (FULL_PCT as int) == (FULL_PCT as int) * (peak as int));
            assert(stop_wide <= peak);
        }
        let stop_level: u64 = stop_wide as u64;
        if self.stopped {
            return (None, stop_level);
        }
        let fire = balance_micro < stop_level;
        self.peak = peak;
        self.initialised = true;
        self.stopped = fire;
        if fire {
            (Some(KillSwitch::PortfolioStopLoss), stop_level)
        } else {
            (None, stop_level)
        }
    }
}

/// The guard after a run of readings, oldest first, at a fixed drawdown
/// percentage, with the count of fires over the run.
pub open spec fn spec_pg_run(balances: Seq<u64>, pct_micro: u64) -> (PortfolioGuard, nat)
    decreases balances.len(),
{
    if balances.len() == 0 {
        (PortfolioGuard { peak: 0, initialised: false, stopped: false }, 0)
    } else {
        let prev = spec_pg_run(balances.drop_last(), pct_micro);
        let fire = spec_pg_fire(prev.0, balances.last(), pct_micro);
        (
            spec_pg_next(prev.0, balances.last(), pct_micro),
            prev.1 + if fire {
                1nat
            } else {
                0nat
            },
        )
    }
}

/// Over any run of readings, the guard fires at most once, and once it has
/// fired it is stopped for good.
pub proof fn lemma_portfolio_at_most_one_fire(balances: Seq<u64>, pct_micro: u64)
    ensures
        spec_pg_run(balances, pct_micro).1 <= 1,
        spec_pg_run(balances, pct_micro).1 == 1 ==> spec_pg_run(balances, pct_micro).0.stopped,
    decreases balances.len(),
{
    if balances.len() > 0 {
        lemma_portfolio_at_most_one_fire(balances.drop_last(), pct_micro);
    }
}

/// Over any run of readings, the peak never decreases from one state to the
/// next.
pub proof fn lemma_portfolio_peak_monotone(balances: Seq<u64>, pct_micro: u64, n: int, m: int)
    requires
        0 <= n <= m <= balances.len(),
    ensures
        spec_pg_run(balances.take(n), pct_micro).0.peak <= spec_pg_run(
            balances.take(m),
            pct_micro,
        ).0.peak,
    decreases m - n,
{
    if n < m {
        assert(balances.take(n + 1).drop_last() =~= balances.take(n));
        assert(balances.take(n + 1).last() == balances[n]);
        lemma_portfolio_peak_monotone(balances, pct_micro, n + 1, m);
    }
}

// ---------------------------------------------------------------------------
// Slippage sentinel
// ---------------------------------------------------------------------------

/// Cap on the magnitude of one slippage sample, micro units (a price ratio of
/// one million); the trader saturates samples to this bound.
pub const SLIP_BOUND: i64 = 1_000_000_000_000;

/// Cap the squared-sample average stays under, micro units.
pub const EMA2_BOUND: i64 = 1_000_000_000_000_000_000;

/// Cap on the sentinel multiplier `k`, micro units (a multiplier of one
/// thousand); configured values above it are clamped.
pub const SLIP_K_BOUND: u64 = 1_000_000_000;

/// Samples before the sentinel may breach.
pub const SENTINEL_WARMUP: u64 = 5;

/// The slippage sentinel: exponential averages of the samples and their
/// squares over a 20-period window (weights 2 and 19 over 21), the sample
/// count, and the configured multiplier.
#[derive(Clone, Copy, Debug, PartialEq, Eq, Structural)]
pub struct SlippageSentinel {
    /// EMA of the samples, micro.
    pub ema: i64,
    /// EMA of the squared samples, micro.
    pub ema2: i64,
    /// Whether a first sample has arrived.
    pub initialised: bool,
    /// Samples observed so far (saturating).
    pub count: u64,
    /// Multiplier `k`, micro.
    pub k: u64,
}

/// Range discipline of a sentinel state.
pub open spec fn sent_wf(st: SlippageSentinel) -> bool {
    &&& -SLIP_BOUND <= st.ema <= SLIP_BOUND
    &&& 0 <= st.ema2 <= EMA2_BOUND
    &&& st.k <= SLIP_K_BOUND
    &&& (!st.initialised ==> st.ema == 0 && st.ema2 == 0 && st.count == 0)
}

/// A configured multiplier, clamped to its cap.
pub open spec fn spec_clamp_k(k: u64) -> u64 {
    if k > SLIP_K_BOUND {
        SLIP_K_BOUND
    } else {
        k
    }
}

/// The squared sample scaled back to micro units.
pub open spec fn spec_sq_micro(s: int) -> int {
    (s * s) / (crate::numeric::MICRO as int)
}

/// The sentinel after one sample: the first sample seeds both averages, later
/// ones blend in with weight 2 of 21; the count rises and a refreshed
/// multiplier is adopted, clamped.
pub open spec fn spec_sent_next(st: SlippageSentinel, s: i64, k_new: Option<u64>) -> SlippageSentinel {
    let k = match k_new {
        Some(v) => spec_clamp_k(v),
        None => st.k,
    };
    let ema = if !st.initialised {
        s as int
    } else {
        spec_div_trunc(2 * s + 19 * st.ema, 21)
    };
    let ema2 = if !st.initialised {
        spec_sq_micro(s as int)
    } else {
        spec_div_trunc(2 * spec_sq_micro(s as int) + 19 * st.ema2, 21)
    };
    let count = if st.count < u64::MAX {
        (st.count + 1) as u64
    } else {
        st.count
    };
    SlippageSentinel { ema: ema as i64, ema2: ema2 as i64, initialised: true, count, k }
}

/// The variance estimate of a state, clamped at zero.
pub open spec fn spec_sent_var(st: SlippageSentinel) -> int {
    let v = st.ema2 - (st.ema * st.ema) / (crate::numeric::MICRO as int);
    if v > 0 {
        v
    } else {
        0
    }
}

/// The standard-deviation estimate of a state, micro units.
pub open spec fn spec_sent_sigma(st: SlippageSentinel) -> int {
    crate::numeric::spec_isqrt((spec_sent_var(st) * (crate::numeric::MICRO as int)) as nat) as int
}

/// The breach threshold of a state: `k` times the deviation estimate.
pub open spec fn spec_sent_threshold(st: SlippageSentinel) -> int {
    (st.k * spec_sent_sigma(st)) / (crate::numeric::MICRO as int)
}

/// Whether a sample breaches against the updated state: only after the
/// warm-up, only with a positive threshold, and only a loss-side tail event.
pub open spec fn spec_sent_breach(st: SlippageSentinel, s: i64) -> bool {
    &&& st.count >= SENTINEL_WARMUP
    &&& spec_sent_threshold(st) > 0
    &&& (s as int) < -spec_sent_threshold(st)
}

impl SlippageSentinel {
    /// A fresh sentinel with the configured multiplier, clamped, or the
    /// default when none is set.
    pub fn new(configured_k: Option<u64>) -> (r: SlippageSentinel)
        ensures
            r == (SlippageSentinel {
                ema: 0,
                ema2: 0,
                initialised: false,
                count: 0,
                k: match configured_k {
                    Some(v) => spec_clamp_k(v),
                    None => DEFAULT_SLIP_K,
                },
            }),
            sent_wf(r),
    {
        let k = match configured_k {
            Some(v) => if v > SLIP_K_BOUND {
                SLIP_K_BOUND
            } else {
                v
            },
            None => DEFAULT_SLIP_K,
        };
        SlippageSentinel { ema: 0, ema2: 0, initialised: false, count: 0, k }
    }

    /// One slippage sample, with an optionally refreshed multiplier.  Returns
    /// the breach decision and the threshold to publish.  The breach holds
    /// exactly when the warm-up is over, the threshold is positive, and the
    /// sample undershoots its negation.
    pub fn observe(&mut self, s: i64, k_new: Option<u64>) -> (r: (Option<KillSwitch>, u64))
        requires
            sent_wf(*old(self)),
            -SLIP_BOUND <= s <= SLIP_BOUND,
        ensures
            *final(self) == spec_sent_next(*old(self), s, k_new),
            sent_wf(*final(self)),
            r.0 == if spec_sent_breach(spec_sent_next(*old(self), s, k_new), s) {
                Some(KillSwitch::Slippage)
            } else {
                None::<KillSwitch>
            },
            r.1 == spec_sent_threshold(spec_sent_next(*old(self), s, k_new)),
    {
        let k: u64 = match k_new {
            Some(v) => if v > SLIP_K_BOUND {
                SLIP_K_BOUND
            } else {
                v
            },
            None => self.k,
        };
        // Squared sample, scaled back to micro.
        proof {
            assert((s as int) * (s as int) >= 0 && (s as int) * (s as int) <= (SLIP_BOUND as int)
                * (SLIP_BOUND as int)) by (nonlinear_arith)
                requires
                    -SLIP_BOUND <= s <= SLIP_BOUND,
            ;
        }
        let ss: i128 = (s as i128) * (s as i128);
        let squ: u128 = ss as u128;
        proof {
            lemma_div_is_ordered(
                squ as int,
                (SLIP_BOUND as int) * (SLIP_BOUND as int),
                crate::numeric::MICRO as int,
            );
            assert((SLIP_BOUND as int) * (SLIP_BOUND as int) / (crate::numeric::MICRO as int)
                == EMA2_BOUND as int) by (nonlinear_arith);
        }
        let sq: i64 = (squ / 1_000_000) as i64;
        assert(sq as int == spec_sq_micro(s as int));
        assert(0 <= sq <= EMA2_BOUND);
        // Averages.
        let ema_new: i64;
        let ema2_new: i64;
        if !self.initialised {
            ema_new = s;
            ema2_new = sq;
        } else {
            let t: i64 = 2 * s + 19 * self.ema;
            ema_new = div_trunc(t, 21);
            proof {
                crate::numeric::lemma_div_trunc_bound(t as int, 21, SLIP_BOUND as int);
            }
            let t2: i128 = 2 * (sq as i128) + 19 * (self.ema2 as i128);
            let q2: u128 = (t2 as u128) / 21;
            proof {
                lemma_div_is_ordered(t2 as int, 21 * (EMA2_BOUND as int), 21);
                lemma_div_multiples_vanish(EMA2_BOUND as int, 21);
                assert(spec_div_trunc(t2 as int, 21) == (t2 as int) / 21);
            }
            ema2_new = q2 as i64;
        }
        let count_new: u64 = if self.count < u64::MAX {
            self.count + 1
        } else {
            self.count
        };
        self.ema = ema_new;
        self.ema2 = ema2_new;
        self.initialised = true;
        self.count = count_new;
        self.k = k;
        // Deviation estimate and threshold of the updated state.
        proof {
            assert((ema_new as int) * (ema_new as int) >= 0 && (ema_new as int) * (ema_new as int)
                <= (SLIP_BOUND as int) * (SLIP_BOUND as int)) by (nonlinear_arith)
                requires
                    -SLIP_BOUND <= ema_new <= SLIP_BOUND,
            ;
        }
        let ee: i128 = (ema_new as i128) * (ema_new as i128);
        let ee_div: u128 = (ee as u128) / 1_000_000;
        proof {
            lemma_div_is_ordered(
                ee as int,
                (SLIP_BOUND as int) * (SLIP_BOUND as int),
                crate::numeric::MICRO as int,
            );
        }
        let var: u64 = if (ema2_new as u128) > ee_div {
            ((ema2_new as u128) - ee_div) as u64
        } else {
            0
        };
        assert(var as int == spec_sent_var(*self));
        let n: u128 = (var as u128) * 1_000_000;
        let sigma: u64 = isqrt_u128(n);
        proof {
            crate::numeric::lemma_isqrt_bounds(n as nat);
            crate::numeric::lemma_isqrt_unique(
                n as int,
                sigma as int,
                crate::numeric::spec_isqrt(n as nat) as int,
            );
            assert(sigma as int == spec_sent_sigma(*self));
            assert((sigma as int) * (sigma as int) <= n as int);
            assert(n <= 1_000_000_000_000_000_000_000_000u128);
            assert(sigma <= 1_000_000_000_000u64) by (nonlinear_arith)
                requires
                    (sigma as int) * (sigma as int) <= 1_000_000_000_000_000_000_000_000int,
                    sigma >= 0,
            ;
            assert((k as int) * (sigma as int) <= u128::MAX) by (nonlinear_arith)
                requires
                    k <= SLIP_K_BOUND,
                    sigma <= 1_000_000_000_000u64,
                    SLIP_K_BOUND == 1_000_000_000u64,
            ;
        }
        let thr_wide: u128 = (k as u128) * (sigma as u128) / 1_000_000;
        proof {
            assert((k as int) * (sigma as int) <= 1_000_000_000_000_000_000_000int)
                by (nonlinear_arith)
                requires
                    k <= 1_000_000_000u64,
                    sigma <= 1_000_000_000_000u64,
            ;
            lemma_div_is_ordered(
                (k as int) * (sigma as int),
                1_000_000_000_000_000_000_000int,
                crate::numeric::MICRO as int,
            );
        }
        let threshold: u64 = thr_wide as u64;
        assert(threshold as int == spec_sent_threshold(*self));
        let breach = count_new >= SENTINEL_WARMUP && threshold > 0 && s < -(threshold as i64);
        if breach {
            (Some(KillSwitch::Slippage), threshold)
        } else {
            (None, threshold)
        }
    }
}

/// The sentinel after a run of samples, oldest first, with no multiplier
/// refresh.
pub open spec fn spec_sent_run(samples: Seq<i64>, k0: u64) -> SlippageSentinel
    decreases samples.len(),
{
    if samples.len() == 0 {
        SlippageSentinel { ema: 0, ema2: 0, initialised: false, count: 0, k: k0 }
    } else {
        spec_sent_next(spec_sent_run(samples.drop_last(), k0), samples.last(), None)
    }
}

/// Whether the sample at position `n` of a run breaches.
pub open spec fn spec_sent_breach_at(samples: Seq<i64>, k0: u64, n: int) -> bool {
    spec_sent_breach(spec_sent_run(samples.take(n + 1), k0), samples[n])
}

/// After a run, the count is the number of samples.
pub proof fn lemma_sentinel_count(samples: Seq<i64>, k0: u64)
    requires
        samples.len() <= u64::MAX,
    ensures
        spec_sent_run(samples, k0).count == samples.len(),
    decreases samples.len(),
{
    if samples.len() > 0 {
        lemma_sentinel_count(samples.drop_last(), k0);
    }
}

/// During the warm-up no sample breaches: the first four samples of any run
/// never produce a slippage signal.
pub proof fn lemma_sentinel_warmup(samples: Seq<i64>, k0: u64, n: int)
    requires
        0 <= n < samples.len(),
        n < SENTINEL_WARMUP - 1,
        samples.len() <= u64::MAX,
    ensures
        !spec_sent_breach_at(samples, k0, n),
{
    lemma_sentinel_count(samples.take(n + 1), k0);
}

/// The legacy single-shot slippage check against a fixed threshold: a
/// realised slippage above it signals.
pub fn slippage_check(realised_micro: i64, threshold_micro: i64) -> (r: Option<KillSwitch>)
    ensures
        r == if realised_micro > threshold_micro {
            Some(KillSwitch::Slippage)
        } else {
            None::<KillSwitch>
        },
{
    if realised_micro > threshold_micro {
        Some(KillSwitch::Slippage)
    } else {
        None
    }
}

/// The legacy single-shot stop-loss check: with only the current reading for
/// a peak, the stop level never exceeds the reading, so it never fires.
pub fn portfolio_stop_loss_check(current_micro: u64, pct_micro: u64) -> (r: Option<KillSwitch>)
    requires
        pct_micro <= FULL_PCT,
    ensures
        r == if (current_micro as int) < spec_stop_level(current_micro, pct_micro) {
            Some(KillSwitch::PortfolioStopLoss)
        } else {
            None::<KillSwitch>
        },
{
    let mut g = PortfolioGuard::new();
    let (signal, _) = g.observe(current_micro, pct_micro);
    signal
}

} // verus!
