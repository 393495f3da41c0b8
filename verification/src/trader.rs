//! The trader's per-event decisions.
//!
//! The asynchronous loop around these functions receives events, performs the
//! RPC and HTTP legs, and broadcasts transactions; every decision and every
//! piece of arithmetic on the way — gating, position sizing, exit multipliers,
//! implied prices, the realised-slippage sample and the confirmation budget —
//! is made here.

use vstd::prelude::*;
use vstd::string::StringSliceAdditionalSpecFns;

use crate::classifier::spec_score;
use crate::classifier::score;
use crate::classifier::SCORE_POSITIVE_THRESHOLD;
use crate::compliance::Denylist;
use crate::compliance::spec_denylist_contains;
use crate::event::LaunchEvent;
use crate::event::LaunchEventView;
use crate::event::Platform;
use crate::numeric::MICRO;
use crate::numeric::spec_parse_decimal_micro;
use crate::numeric::parse_decimal_micro;
use crate::numeric::u64_to_dec;
use crate::numeric::spec_dec_digits;
use crate::risk::FULL_PCT;
use crate::risk::SLIP_BOUND;
use crate::text::spec_contains_sub;
use crate::text::spec_lower;
use crate::text::spec_split;
use crate::text::spec_trim;
use crate::text::contains_sub;
use crate::text::split_bytes;
use crate::text::to_ascii_lower;
use crate::text::trim_ascii;

verus! {

/// Default position size: 2 percent of equity, micro-percent.
pub const DEFAULT_POSITION_SIZE_PCT: u64 = 2_000_000;

/// Default liquidity gate: 10,000 USD, micro.
pub const DEFAULT_LIQUIDITY_THRESHOLD: u64 = 10_000_000_000;

/// Default take-profit multiplier: 5.0, micro.
pub const DEFAULT_PROFIT_MULT: u64 = 5_000_000;

/// Default stop-loss drawdown: 20 percent, micro-percent.
pub const DEFAULT_LOSS_PCT: u64 = 20_000_000;

/// Equity assumed when no balance can be read: 1000 USDC, micro.
pub const FALLBACK_EQUITY: u64 = 1_000_000_000;

/// Slots the confirmation poll waits before giving up.
pub const MAX_CONFIRMATION_SLOTS: u64 = 10;

/// Holder count given to synthetic manual-trade events; high enough that the
/// classifier accepts them.
pub const SIGNAL_HOLDERS: u32 = 1000;

/// Liquidity given to synthetic manual-trade events, micro; high enough that
/// the liquidity rule accepts them.
pub const SIGNAL_LP: u64 = 999_999_000_000;

/// The risk configuration snapshot, refreshed from the environment on a
/// five-minute cadence.
#[derive(Clone, Copy, Debug, PartialEq, Eq, Structural)]
pub struct RiskConfig {
    /// Fraction of equity per position, micro-percent.
    pub position_size_pct: u64,
    /// Liquidity gate, micro-USD.
    pub liquidity_threshold: u64,
    /// Take-profit multiplier, micro.
    pub auto_sell_profit_mult: u64,
    /// Stop-loss drawdown, micro-percent.
    pub auto_sell_loss_pct: u64,
}

/// The value a configuration text stands for: parsed as a decimal into micro
/// units, or the default when absent or unparsable.
pub open spec fn spec_config_value(text: Option<Seq<u8>>, default: u64) -> u64 {
    match text {
        Some(t) => match spec_parse_decimal_micro(t) {
            Some(v) => v,
            None => default,
        },
        None => default,
    }
}

/// One configuration field from its text.
fn config_value(text: &Option<Vec<u8>>, default: u64) -> (r: u64)
    ensures
        r == spec_config_value(text.deep_view(), default),
{
    match text {
        Some(t) => {
            proof {
                assert(t.deep_view() =~= t@);
            }
            match parse_decimal_micro(t.as_slice()) {
                Some(v) => v,
                None => default,
            }
        },
        None => default,
    }
}

impl RiskConfig {
    /// The snapshot read from the four configuration texts, each falling back
    /// to its default when absent or unparsable.
    pub fn from_values(
        position_size_pct: Option<Vec<u8>>,
        liquidity_threshold: Option<Vec<u8>>,
        auto_sell_profit_mult: Option<Vec<u8>>,
        auto_sell_loss_pct: Option<Vec<u8>>,
    ) -> (r: RiskConfig)
        ensures
            r.position_size_pct == spec_config_value(
                position_size_pct.deep_view(),
                DEFAULT_POSITION_SIZE_PCT,
            ),
            r.liquidity_threshold == spec_config_value(
                liquidity_threshold.deep_view(),
                DEFAULT_LIQUIDITY_THRESHOLD,
            ),
            r.auto_sell_profit_mult == spec_config_value(
                auto_sell_profit_mult.deep_view(),
                DEFAULT_PROFIT_MULT,
            ),
            r.auto_sell_loss_pct == spec_config_value(
                auto_sell_loss_pct.deep_view(),
                DEFAULT_LOSS_PCT,
            ),
    {
        RiskConfig {
            position_size_pct: config_value(&position_size_pct, DEFAULT_POSITION_SIZE_PCT),
            liquidity_threshold: config_value(&liquidity_threshold, DEFAULT_LIQUIDITY_THRESHOLD),
            auto_sell_profit_mult: config_value(&auto_sell_profit_mult, DEFAULT_PROFIT_MULT),
            auto_sell_loss_pct: config_value(&auto_sell_loss_pct, DEFAULT_LOSS_PCT),
        }
    }
}

/// Why the admission rules refused an event.
#[derive(Clone, Copy, Debug, PartialEq, Eq, Structural)]
pub enum SkipReason {
    /// The classifier score was not positive.
    LowScore,
    /// Creator or mint is on the denylist.
    Sanctioned,
    /// Liquidity under the configured gate.
    LowLiquidity,
    /// The platform-specific predicate refused the event.
    PlatformGuard,
}

/// The platform guard: a LetsBonk mint must contain `bonk`,
/// case-insensitively; other platforms have no predicate.  (A placeholder
/// predicate, kept pluggable.)
pub open spec fn spec_platform_guard_passes(ev: LaunchEventView) -> bool {
    ev.platform == Platform::LetsBonk ==> spec_contains_sub(
        spec_lower(ev.mint),
        "bonk".spec_bytes(),
    )
}

/// The admission rules applied after dedup and enrichment: classifier,
/// compliance, liquidity, platform guard, in that order; the first refusal
/// names the reason.
pub open spec fn spec_gate(ev: LaunchEventView, denylist: Seq<Seq<u8>>, cfg: RiskConfig) -> Option<
    SkipReason,
> {
    if spec_score(ev) <= SCORE_POSITIVE_THRESHOLD {
        Some(SkipReason::LowScore)
    } else if spec_denylist_contains(denylist, ev.creator) || spec_denylist_contains(
        denylist,
        ev.mint,
    ) {
        Some(SkipReason::Sanctioned)
    } else if ev.lp < cfg.liquidity_threshold {
        Some(SkipReason::LowLiquidity)
    } else if !spec_platform_guard_passes(ev) {
        Some(SkipReason::PlatformGuard)
    } else {
        None
    }
}

/// Applies the admission rules to an enriched event.  An event whose creator
/// or mint is on the denylist is always refused.
pub fn gate_event(ev: &LaunchEvent, denylist: &Denylist, cfg: &RiskConfig) -> (r: Option<
    SkipReason,
>)
    ensures
        r == spec_gate(ev@, denylist@, *cfg),
        spec_denylist_contains(denylist@, ev@.creator) || spec_denylist_contains(
            denylist@,
            ev@.mint,
        ) ==> r is Some,
{
    if score(ev) <= SCORE_POSITIVE_THRESHOLD {
        return Some(SkipReason::LowScore);
    }
    if denylist.is_sanctioned(ev.creator.as_slice()) || denylist.is_sanctioned(
        ev.mint.as_slice(),
    ) {
        return Some(SkipReason::Sanctioned);
    }
    if ev.lp < cfg.liquidity_threshold {
        return Some(SkipReason::LowLiquidity);
    }
    let guard_passes = match ev.platform {
        Platform::LetsBonk => {
            let lower = to_ascii_lower(ev.mint.as_slice());
            contains_sub(lower.as_slice(), "bonk".as_bytes())
        },
        Platform::PumpFun => true,
    };
    if !guard_passes {
        return Some(SkipReason::PlatformGuard);
    }
    None
}

/// A single enrichment pass may overwrite the liquidity proxy with a freshly
/// fetched value; nothing else of the event changes.
pub fn apply_enrichment(ev: &mut LaunchEvent, lp_micro: u64)
    ensures
        final(ev)@ == (LaunchEventView { lp: lp_micro, ..old(ev)@ }),
{
    ev.lp = lp_micro;
}

/// The position size: the read equity, or the fallback when none could be
/// read, scaled by the configured percentage; saturating.
pub open spec fn spec_position_size(balance_micro: Option<u64>, pct_micro: u64) -> u64 {
    let b = match balance_micro {
        Some(v) => v,
        None => FALLBACK_EQUITY,
    };
    let v = (b * pct_micro) / (FULL_PCT as int);
    if v > u64::MAX {
        u64::MAX
    } else {
        v as u64
    }
}

/// Sizes a position in micro-USDC from the current equity.
pub fn position_size_micro(balance_micro: Option<u64>, pct_micro: u64) -> (r: u64)
    ensures
        r == spec_position_size(balance_micro, pct_micro),
{
    let b: u64 = match balance_micro {
        Some(v) => v,
        None => FALLBACK_EQUITY,
    };
    proof {
        assert((b as int) * (pct_micro as int) <= u128::MAX) by (nonlinear_arith)
            requires
                b <= u64::MAX,
                pct_micro <= u64::MAX,
        ;
    }
    let wide: u128 = ((b as u128) * (pct_micro as u128)) / (FULL_PCT as u128);
    if wide > u64::MAX as u128 {
        u64::MAX
    } else {
        wide as u64
    }
}

/// A quantity scaled by a micro-multiplier, saturating: used for the
/// `minOutAmount` hints of the exit legs.
pub open spec fn spec_scale_micro(amount: u64, mult_micro: u64) -> u64 {
    let v = (amount * mult_micro) / (MICRO as int);
    if v > u64::MAX {
        u64::MAX
    } else {
        v as u64
    }
}

/// Scales an expected output amount by a micro-multiplier.
pub fn min_out_amount(expected_out: u64, mult_micro: u64) -> (r: u64)
    ensures
        r == spec_scale_micro(expected_out, mult_micro),
{
    proof {
        assert((expected_out as int) * (mult_micro as int) <= u128::MAX) by (nonlinear_arith)
            requires
                expected_out <= u64::MAX,
                mult_micro <= u64::MAX,
        ;
    }
    let wide: u128 = ((expected_out as u128) * (mult_micro as u128)) / (MICRO as u128);
    if wide > u64::MAX as u128 {
        u64::MAX
    } else {
        wide as u64
    }
}

/// The two exit multipliers: take-profit as configured, stop-loss at one
/// minus the configured drawdown (zero when the drawdown exceeds the whole).
pub open spec fn spec_oco_multipliers(cfg: RiskConfig) -> (u64, u64) {
    let sl = if cfg.auto_sell_loss_pct > FULL_PCT {
        0
    } else {
        (MICRO - cfg.auto_sell_loss_pct / 100) as u64
    };
    (cfg.auto_sell_profit_mult, sl)
}

/// The multipliers for the take-profit and stop-loss exit legs, micro.
pub fn oco_multipliers(cfg: &RiskConfig) -> (r: (u64, u64))
    ensures
        r == spec_oco_multipliers(*cfg),
{
    let sl: u64 = if cfg.auto_sell_loss_pct > FULL_PCT {
        0
    } else {
        proof {
            vstd::arithmetic::div_mod::lemma_div_is_ordered(
                cfg.auto_sell_loss_pct as int,
                FULL_PCT as int,
                100,
            );
        }
        MICRO - cfg.auto_sell_loss_pct / 100
    };
    (cfg.auto_sell_profit_mult, sl)
}

/// The implied price of a swap, micro: output per unit input, zero when the
/// input amount is zero; saturating.
pub open spec fn spec_implied_price(in_amount: u64, out_amount: u64) -> u64 {
    if in_amount == 0 {
        0
    } else {
        let v = (out_amount * (MICRO as int)) / (in_amount as int);
        if v > u64::MAX {
            u64::MAX
        } else {
            v as u64
        }
    }
}

/// The implied price of a swap from its raw amounts.
pub fn implied_price_micro(in_amount: u64, out_amount: u64) -> (r: u64)
    ensures
        r == spec_implied_price(in_amount, out_amount),
{
    if in_amount == 0 {
        return 0;
    }
    proof {
        assert((out_amount as int) * (MICRO as int) <= u128::MAX) by (nonlinear_arith)
            requires
                out_amount <= u64::MAX,
                MICRO == 1_000_000u64,
        ;
    }
    let wide: u128 = ((out_amount as u128) * (MICRO as u128)) / (in_amount as u128);
    if wide > u64::MAX as u128 {
        u64::MAX
    } else {
        wide as u64
    }
}

/// The realised-slippage sample: the take-profit price over the entry price,
/// less one, in micro; zero unless both prices are positive; saturated to the
/// sentinel's sample bound.
pub open spec fn spec_slippage_sample(entry_price: u64, tp_price: u64) -> i64 {
    if entry_price > 0 && tp_price > 0 {
        let v = (tp_price * (MICRO as int)) / (entry_price as int) - (MICRO as int);
        if v > SLIP_BOUND {
            SLIP_BOUND
        } else if v < -(SLIP_BOUND as int) {
            (-(SLIP_BOUND as int)) as i64
        } else {
            v as i64
        }
    } else {
        0
    }
}

/// Computes the slippage sample emitted after the exit legs are fired.  The
/// result always lies within the sentinel's sample bound.
pub fn slippage_sample(entry_price: u64, tp_price: u64) -> (r: i64)
    ensures
        r == spec_slippage_sample(entry_price, tp_price),
        -SLIP_BOUND <= r <= SLIP_BOUND,
{
    if entry_price > 0 && tp_price > 0 {
        proof {
            assert((tp_price as int) * (MICRO as int) <= u128::MAX) by (nonlinear_arith)
                requires
                    tp_price <= u64::MAX,
                    MICRO == 1_000_000u64,
            ;
        }
        let ratio: u128 = ((tp_price as u128) * (MICRO as u128)) / (entry_price as u128);
        if ratio >= (SLIP_BOUND as u128) + (MICRO as u128) {
            SLIP_BOUND
        } else {
            (ratio as i64) - (MICRO as i64)
        }
    } else {
        0
    }
}

/// Whether the confirmation budget is exhausted: more than the allowed number
/// of slots has passed since submission.
pub fn confirm_expired(start_slot: u64, current_slot: u64) -> (r: bool)
    ensures
        r == (current_slot > start_slot && current_slot - start_slot > MAX_CONFIRMATION_SLOTS),
{
    if current_slot > start_slot {
        current_slot - start_slot > MAX_CONFIRMATION_SLOTS
    } else {
        false
    }
}

/// The first accepted signature of a submission fan-out, if any endpoint
/// accepted.
pub open spec fn spec_first_some(results: Seq<Option<Seq<u8>>>) -> Option<Seq<u8>>
    decreases results.len(),
{
    if results.len() == 0 {
        None
    } else {
        match results.first() {
            Some(sig) => Some(sig),
            None => spec_first_some(results.drop_first()),
        }
    }
}

/// Picks the first accepted signature from the per-endpoint results;
/// submission fails when every endpoint rejected.
pub fn first_accepted(results: &Vec<Option<Vec<u8>>>) -> (r: Option<Vec<u8>>)
    ensures
        r.deep_view() == spec_first_some(results.deep_view()),
{
    let mut i: usize = 0;
    proof {
        assert(results.deep_view().skip(0) =~= results.deep_view());
    }
    while i < results.len()
        invariant
            0 <= i <= results@.len(),
            spec_first_some(results.deep_view()) == spec_first_some(
                results.deep_view().skip(i as int),
            ),
        decreases results@.len() - i,
    {
        proof {
            let rv = results.deep_view();
            assert(rv.skip(i as int).first() == rv[i as int]);
            assert(rv.skip(i as int).drop_first() =~= rv.skip(i + 1));
        }
        match &results[i] {
            Some(sig) => {
                let out = vstd::slice::slice_to_vec(sig.as_slice());
                proof {
                    assert(results.deep_view()[i as int] == results@[i as int].deep_view());
                    assert(out.deep_view() =~= sig.deep_view());
                }
                return Some(out);
            },
            None => {},
        }
        i += 1;
    }
    proof {
        assert(results.deep_view().skip(results@.len() as int) =~= Seq::<Option<Seq<u8>>>::empty());
    }
    None
}

/// The submission endpoints: the comma-separated fan-out list with each entry
/// trimmed, or the primary alone when no list is configured.
pub open spec fn spec_rpc_endpoints(fanout: Option<Seq<u8>>, primary: Seq<u8>) -> Seq<Seq<u8>> {
    match fanout {
        Some(s) => spec_split(s, 44).map_values(|p: Seq<u8>| spec_trim(p)),
        None => seq![primary],
    }
}

/// Builds the submission fan-out from configuration.
pub fn rpc_endpoints(fanout: &Option<Vec<u8>>, primary: &[u8]) -> (r: Vec<Vec<u8>>)
    ensures
        r.deep_view() == spec_rpc_endpoints(fanout.deep_view(), primary@),
{
    match fanout {
        Some(csv) => {
            proof {
                assert(csv.deep_view() =~= csv@);
            }
            let pieces = split_bytes(csv.as_slice(), 44);
            let mut out: Vec<Vec<u8>> = Vec::new();
            let mut i: usize = 0;
            while i < pieces.len()
                invariant
                    0 <= i <= pieces@.len(),
                    out.deep_view() =~= pieces.deep_view().take(i as int).map_values(
                        |p: Seq<u8>| spec_trim(p),
                    ),
                decreases pieces@.len() - i,
            {
                out.push(trim_ascii(pieces[i].as_slice()));
                i += 1;
                proof {
                    let pv = pieces.deep_view();
                    assert(pv[i - 1] == pieces@[i - 1].deep_view());
                    assert(pieces@[i - 1].deep_view() =~= pieces@[i - 1]@);
                    assert(pv.take(i as int).map_values(|p: Seq<u8>| spec_trim(p)) =~= pv.take(
                        i - 1,
                    ).map_values(|p: Seq<u8>| spec_trim(p)).push(spec_trim(pv[i - 1])));
                    assert(out.deep_view() =~~= pv.take(i as int).map_values(
                        |p: Seq<u8>| spec_trim(p),
                    ));
                }
            }
            proof {
                assert(pieces.deep_view().take(pieces@.len() as int) =~= pieces.deep_view());
            }
            out
        },
        None => {
            let mut out: Vec<Vec<u8>> = Vec::new();
            out.push(vstd::slice::slice_to_vec(primary));
            proof {
                assert(out.deep_view() =~~= spec_rpc_endpoints(fanout.deep_view(), primary@));
            }
            out
        },
    }
}

/// The RPC URL: the first configured of the three recognised variables, else
/// the local validator in test mode, else the public devnet endpoint.
pub open spec fn spec_rpc_url(
    primary: Option<Seq<u8>>,
    secondary: Option<Seq<u8>>,
    tertiary: Option<Seq<u8>>,
    test_mode: bool,
) -> Seq<u8> {
    match primary {
        Some(u) => u,
        None => match secondary {
            Some(u) => u,
            None => match tertiary {
                Some(u) => u,
                None => if test_mode {
                    "http://127.0.0.1:8899".spec_bytes()
                } else {
                    "https://api.devnet.solana.com".spec_bytes()
                },
            },
        },
    }
}

/// Picks the RPC URL from the recognised configuration values, first match
/// winning, with the test-local and public-devnet fallbacks.
pub fn rpc_url(
    primary: Option<Vec<u8>>,
    secondary: Option<Vec<u8>>,
    tertiary: Option<Vec<u8>>,
    test_mode: bool,
) -> (r: Vec<u8>)
    ensures
        r@ == spec_rpc_url(primary.deep_view(), secondary.deep_view(), tertiary.deep_view(), test_mode),
{
    match primary {
        Some(u) => {
            proof {
                assert(u.deep_view() =~= u@);
            }
            u
        },
        None => match secondary {
            Some(u) => {
                proof {
                    assert(u.deep_view() =~= u@);
                }
                u
            },
            None => match tertiary {
                Some(u) => {
                    proof {
                        assert(u.deep_view() =~= u@);
                    }
                    u
                },
                None => if test_mode {
                    vstd::slice::slice_to_vec("http://127.0.0.1:8899".as_bytes())
                } else {
                    vstd::slice::slice_to_vec("https://api.devnet.solana.com".as_bytes())
                },
            },
        },
    }
}

/// A manual trade signal popped from the key-value store, decoded at the
/// edge into plain values (amounts in micro).
#[derive(Clone, Debug)]
pub struct TradeSignal {
    pub action: Vec<u8>,
    pub token: Vec<u8>,
    /// Position size override, micro-USDC.
    pub amount_usdc: u64,
    /// Slippage override, micro.
    pub max_slippage: u64,
    pub source: Vec<u8>,
    pub platform: Option<Platform>,
}

/// Whether a signal asks for a buy; only buys are executed.
pub fn is_buy_action(signal: &TradeSignal) -> (r: bool)
    ensures
        r == (signal.action@ == "buy".spec_bytes()),
{
    crate::text::eq_bytes(signal.action.as_slice(), "buy".as_bytes())
}

/// The synthetic event a manual signal stands for: the signalled token, a
/// `redis_`-tagged creator, holder count and liquidity high enough to pass
/// every gate, and the signalled platform or the default.
pub fn redis_signal_to_launch_event(signal: &TradeSignal) -> (ev: LaunchEvent)
    ensures
        ev@.mint == signal.token@,
        ev@.creator == "redis_".spec_bytes() + signal.source@,
        ev@.holders_60 == SIGNAL_HOLDERS,
        ev@.lp == SIGNAL_LP,
        ev@.platform == (match signal.platform {
            Some(p) => p,
            None => Platform::PumpFun,
        }),
        ev@.amount_usdc == Some(signal.amount_usdc),
        ev@.max_slippage == Some(signal.max_slippage),
{
    let mut creator = vstd::slice::slice_to_vec("redis_".as_bytes());
    creator.extend_from_slice(signal.source.as_slice());
    let platform = match signal.platform {
        Some(p) => p,
        None => Platform::PumpFun,
    };
    LaunchEvent {
        mint: vstd::slice::slice_to_vec(signal.token.as_slice()),
        creator,
        holders_60: SIGNAL_HOLDERS,
        lp: SIGNAL_LP,
        platform,
        amount_usdc: Some(signal.amount_usdc),
        max_slippage: Some(signal.max_slippage),
    }
}

/// The aggregator quote URL for a buy of `amount` of the input mint against
/// `output_mint`.
pub fn build_quote_url(api: &[u8], input_mint: &[u8], output_mint: &[u8], amount: u64) -> (r: Vec<
    u8,
>)
    ensures
        r@ == api@ + "/quote?inputMint=".spec_bytes() + input_mint@ + "&outputMint=".spec_bytes()
            + output_mint@ + "&amount=".spec_bytes() + spec_dec_digits(amount as nat)
            + "&slippageBps=100&onlyDirectRoutes=false&platformFeeBps=0".spec_bytes(),
{
    let mut out = vstd::slice::slice_to_vec(api);
    out.extend_from_slice("/quote?inputMint=".as_bytes());
    out.extend_from_slice(input_mint);
    out.extend_from_slice("&outputMint=".as_bytes());
    out.extend_from_slice(output_mint);
    out.extend_from_slice("&amount=".as_bytes());
    let dec = u64_to_dec(amount);
    out.extend_from_slice(dec.as_slice());
    out.extend_from_slice("&slippageBps=100&onlyDirectRoutes=false&platformFeeBps=0".as_bytes());
    out
}

/// The aggregator swap URL: as the quote URL, plus the signer's public key
/// and the `minOutAmount` hint.
pub fn build_swap_url(
    api: &[u8],
    input_mint: &[u8],
    output_mint: &[u8],
    amount: u64,
    user_pubkey: &[u8],
    min_out: u64,
) -> (r: Vec<u8>)
    ensures
        r@ == api@ + "/swap?inputMint=".spec_bytes() + input_mint@ + "&outputMint=".spec_bytes()
            + output_mint@ + "&amount=".spec_bytes() + spec_dec_digits(amount as nat)
            + "&slippageBps=100&userPublicKey=".spec_bytes() + user_pubkey@
            + "&wrapUnwrapSOL=true&feeBps=0&minOutAmount=".spec_bytes() + spec_dec_digits(
            min_out as nat,
        ),
{
    let mut out = vstd::slice::slice_to_vec(api);
    out.extend_from_slice("/swap?inputMint=".as_bytes());
    out.extend_from_slice(input_mint);
    out.extend_from_slice("&outputMint=".as_bytes());
    out.extend_from_slice(output_mint);
    out.extend_from_slice("&amount=".as_bytes());
    let dec = u64_to_dec(amount);
    out.extend_from_slice(dec.as_slice());
    out.extend_from_slice("&slippageBps=100&userPublicKey=".as_bytes());
    out.extend_from_slice(user_pubkey);
    out.extend_from_slice("&wrapUnwrapSOL=true&feeBps=0&minOutAmount=".as_bytes());
    let dec2 = u64_to_dec(min_out);
    out.extend_from_slice(dec2.as_slice());
    out
}

/// The input mint the executor trades from: the wrapped-SOL identifier,
/// standing in for USDC.
pub fn usdc_mint() -> (r: &'static [u8])
    ensures
        r@ == "So11111111111111111111111111111111111111112".spec_bytes(),
{
    "So11111111111111111111111111111111111111112".as_bytes()
}

} // verus!
