//! The replay-file event codec.
//!
//! The replay loader stores one launch event per line, as a JSON object in a
//! fixed field order with numeric fields in micro units:
//!
//! `{"mint":"..","creator":"..","holders_60":N,"lp":N,"platform":"..",`
//! `"amount_usdc":N|null,"max_slippage":N|null}`
//!
//! The decoder reads exactly this shape back.  Identifiers are written
//! verbatim, so an event is encodable when neither identifier holds a quote
//! byte; decoding an encoded event returns it unchanged
//! (`lemma_codec_round_trip`).

use vstd::prelude::*;
use vstd::slice::slice_subrange;
use vstd::slice::slice_to_vec;
use vstd::string::StringSliceAdditionalSpecFns;
use vstd::string::is_ascii;

use crate::event::LaunchEvent;
use crate::event::LaunchEventView;
use crate::event::Platform;
use crate::numeric::spec_dec_digits;
use crate::numeric::spec_parse_u64;
use crate::numeric::u64_to_dec;
use crate::numeric::parse_u64_dec;
use crate::text::spec_find_byte_from;
use crate::text::find_byte_from;
use crate::text::lemma_find_byte_from_correct;
use crate::text::match_at;
use crate::text::eq_bytes;

verus! {

/// Opening of a record, up to the mint.
pub open spec fn spec_l_mint() -> Seq<u8> {
    "{\"mint\":\"".spec_bytes()
}

/// Between the mint and the creator.
pub open spec fn spec_l_creator() -> Seq<u8> {
    "\",\"creator\":\"".spec_bytes()
}

/// Between the creator and the holder count.
pub open spec fn spec_l_holders() -> Seq<u8> {
    "\",\"holders_60\":".spec_bytes()
}

/// Between the holder count and the liquidity.
pub open spec fn spec_l_lp() -> Seq<u8> {
    ",\"lp\":".spec_bytes()
}

/// Between the liquidity and the platform.
pub open spec fn spec_l_platform() -> Seq<u8> {
    ",\"platform\":\"".spec_bytes()
}

/// Between the platform and the amount override.
pub open spec fn spec_l_amount() -> Seq<u8> {
    "\",\"amount_usdc\":".spec_bytes()
}

/// Between the amount override and the slippage override.
pub open spec fn spec_l_max() -> Seq<u8> {
    ",\"max_slippage\":".spec_bytes()
}

/// Close of a record.
pub open spec fn spec_l_end() -> Seq<u8> {
    "}".spec_bytes()
}

/// The absent-value literal.
pub open spec fn spec_l_null() -> Seq<u8> {
    "null".spec_bytes()
}

/// The platform names as stored.
pub open spec fn spec_platform_lit(p: Platform) -> Seq<u8> {
    match p {
        Platform::PumpFun => "PumpFun".spec_bytes(),
        Platform::LetsBonk => "LetsBonk".spec_bytes(),
    }
}

/// An optional numeric field as stored: a numeral, or `null`.
pub open spec fn spec_opt_num(v: Option<u64>) -> Seq<u8> {
    match v {
        Some(n) => spec_dec_digits(n as nat),
        None => spec_l_null(),
    }
}

/// The bytes a launch event is stored as.
pub open spec fn spec_encode_event(e: LaunchEventView) -> Seq<u8> {
    spec_l_mint() + e.mint + spec_l_creator() + e.creator + spec_l_holders() + spec_dec_digits(
        e.holders_60 as nat,
    ) + spec_l_lp() + spec_dec_digits(e.lp as nat) + spec_l_platform() + spec_platform_lit(
        e.platform,
    ) + spec_l_amount() + spec_opt_num(e.amount_usdc) + spec_l_max() + spec_opt_num(
        e.max_slippage,
    ) + spec_l_end()
}

/// An event is encodable when neither identifier holds a quote byte.
pub open spec fn spec_encodable(e: LaunchEventView) -> bool {
    &&& forall|i: int| 0 <= i < e.mint.len() ==> e.mint[i] != 34
    &&& forall|i: int| 0 <= i < e.creator.len() ==> e.creator[i] != 34
}

/// Writes one optional numeric field.
fn push_opt_num(out: &mut Vec<u8>, v: &Option<u64>)
    ensures
        final(out)@ == old(out)@ + spec_opt_num(*v),
{
    match v {
        Some(n) => {
            let dec = u64_to_dec(*n);
            out.extend_from_slice(dec.as_slice());
        },
        None => {
            out.extend_from_slice("null".as_bytes());
        },
    }
}

/// Encodes one launch event as a replay-file record.
pub fn encode_event(e: &LaunchEvent) -> (r: Vec<u8>)
    ensures
        r@ == spec_encode_event(e@),
{
    let mut out = slice_to_vec("{\"mint\":\"".as_bytes());
    out.extend_from_slice(e.mint.as_slice());
    out.extend_from_slice("\",\"creator\":\"".as_bytes());
    out.extend_from_slice(e.creator.as_slice());
    out.extend_from_slice("\",\"holders_60\":".as_bytes());
    let h = u64_to_dec(e.holders_60 as u64);
    out.extend_from_slice(h.as_slice());
    out.extend_from_slice(",\"lp\":".as_bytes());
    let lp = u64_to_dec(e.lp);
    out.extend_from_slice(lp.as_slice());
    out.extend_from_slice(",\"platform\":\"".as_bytes());
    match e.platform {
        Platform::PumpFun => out.extend_from_slice("PumpFun".as_bytes()),
        Platform::LetsBonk => out.extend_from_slice("LetsBonk".as_bytes()),
    }
    out.extend_from_slice("\",\"amount_usdc\":".as_bytes());
    push_opt_num(&mut out, &e.amount_usdc);
    out.extend_from_slice(",\"max_slippage\":".as_bytes());
    push_opt_num(&mut out, &e.max_slippage);
    out.extend_from_slice("}".as_bytes());
    proof {
        assert(out@ =~= spec_encode_event(e@));
    }
    out
}

/// The position after a literal, when the bytes at `i` are exactly it.
pub open spec fn spec_expect(s: Seq<u8>, i: int, lit: Seq<u8>) -> Option<int> {
    if 0 <= i && i + lit.len() <= s.len() && s.subrange(i, i + lit.len()) == lit {
        Some(i + lit.len())
    } else {
        None
    }
}

/// The bytes from `i` up to the next `stop`, and its position.
pub open spec fn spec_take_until(s: Seq<u8>, i: int, stop: u8) -> Option<(Seq<u8>, int)> {
    match spec_find_byte_from(s, i, stop) {
        Some(j) => Some((s.subrange(i, j), j)),
        None => None,
    }
}

/// Consumes a literal.
fn expect_lit(s: &[u8], i: usize, lit: &[u8]) -> (r: Option<usize>)
    ensures
        match r {
            Some(j) => Some(j as int) == spec_expect(s@, i as int, lit@),
            None => spec_expect(s@, i as int, lit@) is None,
        },
{
    assert(s@.len() == s.len());
    if i > s.len() || lit.len() > s.len() - i {
        return None;
    }
    if match_at(s, i, lit) {
        Some(i + lit.len())
    } else {
        None
    }
}

/// Takes the bytes up to the next `stop`.
fn take_until(s: &[u8], i: usize, stop: u8) -> (r: Option<(Vec<u8>, usize)>)
    requires
        i <= s@.len(),
    ensures
        match r {
            Some(p) => spec_take_until(s@, i as int, stop) == Some((p.0@, p.1 as int)),
            None => spec_take_until(s@, i as int, stop) is None,
        },
{
    proof {
        lemma_find_byte_from_correct(s@, i as int, stop);
    }
    match find_byte_from(s, i, stop) {
        Some(j) => Some((slice_to_vec(slice_subrange(s, i, j)), j)),
        None => None,
    }
}

/// The decoded event and the text's meaning: `None` for anything that is not
/// exactly an encoded record.
pub open spec fn spec_decode_event(s: Seq<u8>) -> Option<LaunchEventView> {
    match spec_expect(s, 0, spec_l_mint()) {
        None => None,
        Some(i1) => match spec_take_until(s, i1, 34) {
            None => None,
            Some((mint, i2)) => match spec_expect(s, i2, spec_l_creator()) {
                None => None,
                Some(i3) => match spec_take_until(s, i3, 34) {
                    None => None,
                    Some((creator, i4)) => match spec_expect(s, i4, spec_l_holders()) {
                        None => None,
                        Some(i5) => match spec_take_until(s, i5, 44) {
                            None => None,
                            Some((htok, i6)) => match spec_parse_u64(htok) {
                                None => None,
                                Some(h) => if h > u32::MAX {
                                    None
                                } else {
                                    spec_decode_tail(s, i6, mint, creator, h as u32)
                                },
                            },
                        },
                    },
                },
            },
        },
    }
}

/// Continues a decode after the holder count.
pub open spec fn spec_decode_tail(s: Seq<u8>, i6: int, mint: Seq<u8>, creator: Seq<u8>, h: u32) -> Option<
    LaunchEventView,
> {
    match spec_expect(s, i6, spec_l_lp()) {
        None => None,
        Some(i7) => match spec_take_until(s, i7, 44) {
            None => None,
            Some((lptok, i8)) => match spec_parse_u64(lptok) {
                None => None,
                Some(lp) => match spec_expect(s, i8, spec_l_platform()) {
                    None => None,
                    Some(i9) => match spec_take_until(s, i9, 34) {
                        None => None,
                        Some((ptok, i10)) => match spec_platform_of(ptok) {
                            None => None,
                            Some(platform) => match spec_expect(s, i10, spec_l_amount()) {
                                None => None,
                                Some(i11) => match spec_opt_field(s, i11, 44) {
                                    None => None,
                                    Some((amount, i12)) => match spec_expect(s, i12, spec_l_max()) {
                                        None => None,
                                        Some(i13) => match spec_opt_field(s, i13, 125) {
                                            None => None,
                                            Some((max_slip, i14)) => match spec_expect(
                                                s,
                                                i14,
                                                spec_l_end(),
                                            ) {
                                                None => None,
                                                Some(i15) => if i15 == s.len() {
                                                    Some(
                                                        LaunchEventView {
                                                            mint,
                                                            creator,
                                                            holders_60: h,
                                                            lp,
                                                            platform,
                                                            amount_usdc: amount,
                                                            max_slippage: max_slip,
                                                        },
                                                    )
                                                } else {
                                                    None
                                                },
                                            },
                                        },
                                    },
                                },
                            },
                        },
                    },
                },
            },
        },
    }
}

/// The platform a stored name denotes.
pub open spec fn spec_platform_of(tok: Seq<u8>) -> Option<Platform> {
    if tok == "PumpFun".spec_bytes() {
        Some(Platform::PumpFun)
    } else if tok == "LetsBonk".spec_bytes() {
        Some(Platform::LetsBonk)
    } else {
        None
    }
}

/// An optional numeric field: `null`, or a numeral running to `stop`.
pub open spec fn spec_opt_field(s: Seq<u8>, i: int, stop: u8) -> Option<(Option<u64>, int)> {
    match spec_expect(s, i, spec_l_null()) {
        Some(j) => Some((None, j)),
        None => match spec_take_until(s, i, stop) {
            None => None,
            Some((tok, j)) => match spec_parse_u64(tok) {
                None => None,
                Some(v) => Some((Some(v), j)),
            },
        },
    }
}

/// Reads one optional numeric field.
fn opt_field(s: &[u8], i: usize, stop: u8) -> (r: Option<(Option<u64>, usize)>)
    requires
        i <= s@.len(),
    ensures
        match r {
            Some(p) => spec_opt_field(s@, i as int, stop) == Some((p.0, p.1 as int)),
            None => spec_opt_field(s@, i as int, stop) is None,
        },
{
    match expect_lit(s, i, "null".as_bytes()) {
        Some(j) => Some((None, j)),
        None => match take_until(s, i, stop) {
            None => None,
            Some((tok, j)) => match parse_u64_dec(tok.as_slice()) {
                None => None,
                Some(v) => Some((Some(v), j)),
            },
        },
    }
}

/// Lengths and distinguishing bytes of the stored literals.
proof fn lemma_codec_literals()
    ensures
        spec_l_mint().len() == 9,
        spec_l_creator().len() == 13,
        spec_l_creator()[0] == 34,
        spec_l_holders().len() == 15,
        spec_l_holders()[0] == 34,
        spec_l_lp().len() == 6,
        spec_l_lp()[0] == 44,
        spec_l_platform().len() == 13,
        spec_l_platform()[0] == 44,
        spec_l_amount().len() == 16,
        spec_l_amount()[0] == 34,
        spec_l_max().len() == 16,
        spec_l_max()[0] == 44,
        spec_l_end().len() == 1,
        spec_l_end()[0] == 125,
        spec_l_null().len() == 4,
        spec_l_null()[0] == 110,
        "PumpFun".spec_bytes().len() == 7,
        forall|k: int| 0 <= k < 7 ==> #[trigger] "PumpFun".spec_bytes()[k] != 34,
        "LetsBonk".spec_bytes().len() == 8,
        forall|k: int| 0 <= k < 8 ==> #[trigger] "LetsBonk".spec_bytes()[k] != 34,
{
    broadcast use vstd::string::is_ascii_spec_bytes;

    reveal_strlit("{\"mint\":\"");
    reveal_strlit("\",\"creator\":\"");
    reveal_strlit("\",\"holders_60\":");
    reveal_strlit(",\"lp\":");
    reveal_strlit(",\"platform\":\"");
    reveal_strlit("\",\"amount_usdc\":");
    reveal_strlit(",\"max_slippage\":");
    reveal_strlit("}");
    reveal_strlit("null");
    reveal_strlit("PumpFun");
    reveal_strlit("LetsBonk");
    assert(is_ascii("{\"mint\":\""));
    assert(is_ascii("\",\"creator\":\""));
    assert(is_ascii("\",\"holders_60\":"));
    assert(is_ascii(",\"lp\":"));
    assert(is_ascii(",\"platform\":\""));
    assert(is_ascii("\",\"amount_usdc\":"));
    assert(is_ascii(",\"max_slippage\":"));
    assert(is_ascii("}"));
    assert(is_ascii("null"));
    assert(is_ascii("PumpFun"));
    assert(is_ascii("LetsBonk"));
    let pf = "PumpFun".spec_bytes();
    assert(pf[0] != 34 && pf[1] != 34 && pf[2] != 34 && pf[3] != 34 && pf[4] != 34 && pf[5] != 34
        && pf[6] != 34);
    let lb = "LetsBonk".spec_bytes();
    assert(lb[0] != 34 && lb[1] != 34 && lb[2] != 34 && lb[3] != 34 && lb[4] != 34 && lb[5] != 34
        && lb[6] != 34 && lb[7] != 34);
}

/// An optional field of an encoded record reads back as written: `null` is
/// taken as the absent value, a numeral as its value running to the
/// terminator.
proof fn lemma_opt_field_round_trip(s: Seq<u8>, i: int, v: Option<u64>, stop: u8)
    requires
        0 <= i,
        i + spec_opt_num(v).len() < s.len(),
        s.subrange(i, i + spec_opt_num(v).len()) == spec_opt_num(v),
        s[i + spec_opt_num(v).len()] == stop,
        stop != 110,
        stop < 48 || stop > 57,
    ensures
        spec_opt_field(s, i, stop) == Some((v, i + spec_opt_num(v).len())),
{
    lemma_codec_literals();
    let w = spec_opt_num(v);
    let j = i + w.len();
    match v {
        None => {
            assert(spec_expect(s, i, spec_l_null()) == Some(j));
        },
        Some(n) => {
            crate::numeric::lemma_dec_digits_all_digits(n as nat);
            crate::numeric::lemma_dec_digits_nonempty(n as nat);
            crate::numeric::lemma_parse_dec_digits(n);
            assert(s[i] == s.subrange(i, j)[0]);
            assert(crate::numeric::spec_is_digit(w[0]));
            assert(spec_expect(s, i, spec_l_null()) is None) by {
                if 0 <= i && i + spec_l_null().len() <= s.len() && s.subrange(
                    i,
                    i + spec_l_null().len(),
                ) == spec_l_null() {
                    assert(s[i] == s.subrange(i, i + spec_l_null().len())[0]);
                    assert(s[i] == 110);
                    assert(false);
                }
            }
            assert forall|k: int| i <= k < j implies s[k] != stop by {
                assert(s[k] == s.subrange(i, j)[k - i]);
                assert(crate::numeric::spec_is_digit(w[k - i]));
            }
            crate::text::lemma_find_byte_exact(s, i, j, stop);
            assert(spec_take_until(s, i, stop) == Some((w, j)));
            assert(spec_parse_u64(w) == Some(n));
        },
    }
}

/// Offsets of the pieces of an encoded record.
pub open spec fn off_mint0(e: LaunchEventView) -> int {
    9
}

pub open spec fn off_mint1(e: LaunchEventView) -> int {
    off_mint0(e) + e.mint.len()
}

pub open spec fn off_cre0(e: LaunchEventView) -> int {
    off_mint1(e) + 13
}

pub open spec fn off_cre1(e: LaunchEventView) -> int {
    off_cre0(e) + e.creator.len()
}

pub open spec fn off_h0(e: LaunchEventView) -> int {
    off_cre1(e) + 15
}

pub open spec fn off_h1(e: LaunchEventView) -> int {
    off_h0(e) + spec_dec_digits(e.holders_60 as nat).len()
}

pub open spec fn off_lp0(e: LaunchEventView) -> int {
    off_h1(e) + 6
}

pub open spec fn off_lp1(e: LaunchEventView) -> int {
    off_lp0(e) + spec_dec_digits(e.lp as nat).len()
}

pub open spec fn off_pl0(e: LaunchEventView) -> int {
    off_lp1(e) + 13
}

pub open spec fn off_pl1(e: LaunchEventView) -> int {
    off_pl0(e) + spec_platform_lit(e.platform).len()
}

pub open spec fn off_am0(e: LaunchEventView) -> int {
    off_pl1(e) + 16
}

pub open spec fn off_am1(e: LaunchEventView) -> int {
    off_am0(e) + spec_opt_num(e.amount_usdc).len()
}

pub open spec fn off_mx0(e: LaunchEventView) -> int {
    off_am1(e) + 16
}

pub open spec fn off_mx1(e: LaunchEventView) -> int {
    off_mx0(e) + spec_opt_num(e.max_slippage).len()
}

/// Where each piece of an encoded record lies.
#[verifier::rlimit(100)]
#[verifier::spinoff_prover]
proof fn lemma_encode_layout(e: LaunchEventView)
    ensures
        spec_encode_event(e).len() == off_mx1(e) + 1,
        spec_encode_event(e).subrange(0, 9) == spec_l_mint(),
        spec_encode_event(e).subrange(off_mint0(e), off_mint1(e)) == e.mint,
        spec_encode_event(e).subrange(off_mint1(e), off_cre0(e)) == spec_l_creator(),
        spec_encode_event(e).subrange(off_cre0(e), off_cre1(e)) == e.creator,
        spec_encode_event(e).subrange(off_cre1(e), off_h0(e)) == spec_l_holders(),
        spec_encode_event(e).subrange(off_h0(e), off_h1(e)) == spec_dec_digits(
            e.holders_60 as nat,
        ),
        spec_encode_event(e).subrange(off_h1(e), off_lp0(e)) == spec_l_lp(),
        spec_encode_event(e).subrange(off_lp0(e), off_lp1(e)) == spec_dec_digits(e.lp as nat),
        spec_encode_event(e).subrange(off_lp1(e), off_pl0(e)) == spec_l_platform(),
        spec_encode_event(e).subrange(off_pl0(e), off_pl1(e)) == spec_platform_lit(e.platform),
        spec_encode_event(e).subrange(off_pl1(e), off_am0(e)) == spec_l_amount(),
        spec_encode_event(e).subrange(off_am0(e), off_am1(e)) == spec_opt_num(e.amount_usdc),
        spec_encode_event(e).subrange(off_am1(e), off_mx0(e)) == spec_l_max(),
        spec_encode_event(e).subrange(off_mx0(e), off_mx1(e)) == spec_opt_num(e.max_slippage),
        spec_encode_event(e).subrange(off_mx1(e), off_mx1(e) + 1) == spec_l_end(),
{
    lemma_codec_literals();
    let s = spec_encode_event(e);
    assert(s.subrange(0, 9) =~= spec_l_mint());
    assert(s.subrange(off_mint0(e), off_mint1(e)) =~= e.mint);
    assert(s.subrange(off_mint1(e), off_cre0(e)) =~= spec_l_creator());
    assert(s.subrange(off_cre0(e), off_cre1(e)) =~= e.creator);
    assert(s.subrange(off_cre1(e), off_h0(e)) =~= spec_l_holders());
    assert(s.subrange(off_h0(e), off_h1(e)) =~= spec_dec_digits(e.holders_60 as nat));
    assert(s.subrange(off_h1(e), off_lp0(e)) =~= spec_l_lp());
    assert(s.subrange(off_lp0(e), off_lp1(e)) =~= spec_dec_digits(e.lp as nat));
    assert(s.subrange(off_lp1(e), off_pl0(e)) =~= spec_l_platform());
    assert(s.subrange(off_pl0(e), off_pl1(e)) =~= spec_platform_lit(e.platform));
    assert(s.subrange(off_pl1(e), off_am0(e)) =~= spec_l_amount());
    assert(s.subrange(off_am0(e), off_am1(e)) =~= spec_opt_num(e.amount_usdc));
    assert(s.subrange(off_am1(e), off_mx0(e)) =~= spec_l_max());
    assert(s.subrange(off_mx0(e), off_mx1(e)) =~= spec_opt_num(e.max_slippage));
    assert(s.subrange(off_mx1(e), off_mx1(e) + 1) =~= spec_l_end());
}

/// Decoding an encoded record returns the event unchanged.
#[verifier::rlimit(100)]
#[verifier::spinoff_prover]
pub proof fn lemma_codec_round_trip(e: LaunchEventView)
    requires
        spec_encodable(e),
    ensures
        spec_decode_event(spec_encode_event(e)) == Some(e),
{
    lemma_codec_literals();
    lemma_encode_layout(e);
    let s = spec_encode_event(e);
    let dh = spec_dec_digits(e.holders_60 as nat);
    let dlp = spec_dec_digits(e.lp as nat);
    let pl = spec_platform_lit(e.platform);
    let oa = spec_opt_num(e.amount_usdc);
    let om = spec_opt_num(e.max_slippage);
    let a1 = off_mint0(e);
    let a2 = off_mint1(e);
    let a3 = off_cre0(e);
    let a4 = off_cre1(e);
    let a5 = off_h0(e);
    let a6 = off_h1(e);
    let a7 = off_lp0(e);
    let a8 = off_lp1(e);
    let a9 = off_pl0(e);
    let a10 = off_pl1(e);
    let a11 = off_am0(e);
    let a12 = off_am1(e);
    let a13 = off_mx0(e);
    let a14 = off_mx1(e);
    let a15 = a14 + 1;
    assert(s.len() == a15);
    // Opening literal and mint.
    assert(spec_expect(s, 0, spec_l_mint()) == Some(a1));
    assert forall|k: int| a1 <= k < a2 implies s[k] != 34 by {
        assert(s[k] == s.subrange(a1, a2)[k - a1]);
    }
    assert(s[a2] == s.subrange(a2, a3)[0]);
    crate::text::lemma_find_byte_exact(s, a1, a2, 34);
    assert(spec_take_until(s, a1, 34) == Some((e.mint, a2)));
    // Creator.
    assert(spec_expect(s, a2, spec_l_creator()) == Some(a3));
    assert forall|k: int| a3 <= k < a4 implies s[k] != 34 by {
        assert(s[k] == s.subrange(a3, a4)[k - a3]);
    }
    assert(s[a4] == s.subrange(a4, a5)[0]);
    crate::text::lemma_find_byte_exact(s, a3, a4, 34);
    assert(spec_take_until(s, a3, 34) == Some((e.creator, a4)));
    // Holder count.
    assert(spec_expect(s, a4, spec_l_holders()) == Some(a5));
    crate::numeric::lemma_dec_digits_all_digits(e.holders_60 as nat);
    crate::numeric::lemma_parse_dec_digits(e.holders_60 as u64);
    assert forall|k: int| a5 <= k < a6 implies s[k] != 44 by {
        assert(s[k] == s.subrange(a5, a6)[k - a5]);
        assert(crate::numeric::spec_is_digit(dh[k - a5]));
    }
    assert(s[a6] == s.subrange(a6, a7)[0]);
    crate::text::lemma_find_byte_exact(s, a5, a6, 44);
    assert(spec_take_until(s, a5, 44) == Some((dh, a6)));
    assert(spec_parse_u64(dh) == Some(e.holders_60 as u64));
    assert(spec_decode_event(s) == spec_decode_tail(s, a6, e.mint, e.creator, e.holders_60));
    // Liquidity.
    assert(spec_expect(s, a6, spec_l_lp()) == Some(a7));
    crate::numeric::lemma_dec_digits_all_digits(e.lp as nat);
    crate::numeric::lemma_parse_dec_digits(e.lp);
    assert forall|k: int| a7 <= k < a8 implies s[k] != 44 by {
        assert(s[k] == s.subrange(a7, a8)[k - a7]);
        assert(crate::numeric::spec_is_digit(dlp[k - a7]));
    }
    assert(s[a8] == s.subrange(a8, a9)[0]);
    crate::text::lemma_find_byte_exact(s, a7, a8, 44);
    assert(spec_take_until(s, a7, 44) == Some((dlp, a8)));
    assert(spec_parse_u64(dlp) == Some(e.lp));
    // Platform.
    assert(spec_expect(s, a8, spec_l_platform()) == Some(a9));
    assert forall|k: int| a9 <= k < a10 implies s[k] != 34 by {
        assert(s[k] == s.subrange(a9, a10)[k - a9]);
        assert(pl[k - a9] != 34);
    }
    assert(s[a10] == s.subrange(a10, a11)[0]);
    crate::text::lemma_find_byte_exact(s, a9, a10, 34);
    assert(spec_take_until(s, a9, 34) == Some((pl, a10)));
    if e.platform == Platform::LetsBonk {
        assert(pl.len() != "PumpFun".spec_bytes().len());
    }
    assert(spec_platform_of(pl) == Some(e.platform));
    // Amount override.
    assert(spec_expect(s, a10, spec_l_amount()) == Some(a11));
    assert(s[a12] == s.subrange(a12, a13)[0]);
    lemma_opt_field_round_trip(s, a11, e.amount_usdc, 44);
    assert(spec_opt_field(s, a11, 44) == Some((e.amount_usdc, a12)));
    // Slippage override.
    assert(spec_expect(s, a12, spec_l_max()) == Some(a13));
    assert(s[a14] == s.subrange(a14, a15)[0]);
    lemma_opt_field_round_trip(s, a13, e.max_slippage, 125);
    assert(spec_opt_field(s, a13, 125) == Some((e.max_slippage, a14)));
    // Close.
    assert(spec_expect(s, a14, spec_l_end()) == Some(a15));
    assert(spec_decode_tail(s, a6, e.mint, e.creator, e.holders_60) == Some(
        LaunchEventView {
            mint: e.mint,
            creator: e.creator,
            holders_60: e.holders_60,
            lp: e.lp,
            platform: e.platform,
            amount_usdc: e.amount_usdc,
            max_slippage: e.max_slippage,
        },
    ));
    assert(LaunchEventView {
        mint: e.mint,
        creator: e.creator,
        holders_60: e.holders_60,
        lp: e.lp,
        platform: e.platform,
        amount_usdc: e.amount_usdc,
        max_slippage: e.max_slippage,
    } == e);
}

/// Decodes one replay-file record; `None` for anything that is not exactly an
/// encoded record.
pub fn decode_event(s: &[u8]) -> (r: Option<LaunchEvent>)
    ensures
        match r {
            Some(ev) => spec_decode_event(s@) == Some(ev@),
            None => spec_decode_event(s@) is None,
        },
{
    assert(s@.len() == s.len());
    let i1 = match expect_lit(s, 0, "{\"mint\":\"".as_bytes()) {
        Some(j) => j,
        None => {
            return None;
        },
    };
    assert(i1 <= s@.len());
    let (mint, i2) = match take_until(s, i1, 34) {
        Some(p) => p,
        None => {
            return None;
        },
    };
    proof {
        lemma_find_byte_from_correct(s@, i1 as int, 34);
    }
    let i3 = match expect_lit(s, i2, "\",\"creator\":\"".as_bytes()) {
        Some(j) => j,
        None => {
            return None;
        },
    };
    let (creator, i4) = match take_until(s, i3, 34) {
        Some(p) => p,
        None => {
            return None;
        },
    };
    proof {
        lemma_find_byte_from_correct(s@, i3 as int, 34);
    }
    let i5 = match expect_lit(s, i4, "\",\"holders_60\":".as_bytes()) {
        Some(j) => j,
        None => {
            return None;
        },
    };
    let (htok, i6) = match take_until(s, i5, 44) {
        Some(p) => p,
        None => {
            return None;
        },
    };
    proof {
        lemma_find_byte_from_correct(s@, i5 as int, 44);
    }
    let holders_60: u32 = match parse_u64_dec(htok.as_slice()) {
        Some(h) => if h > u32::MAX as u64 {
            return None;
        } else {
            h as u32
        },
        None => {
            return None;
        },
    };
    let i7 = match expect_lit(s, i6, ",\"lp\":".as_bytes()) {
        Some(j) => j,
        None => {
            return None;
        },
    };
    let (lptok, i8) = match take_until(s, i7, 44) {
        Some(p) => p,
        None => {
            return None;
        },
    };
    proof {
        lemma_find_byte_from_correct(s@, i7 as int, 44);
    }
    let lp: u64 = match parse_u64_dec(lptok.as_slice()) {
        Some(v) => v,
        None => {
            return None;
        },
    };
    let i9 = match expect_lit(s, i8, ",\"platform\":\"".as_bytes()) {
        Some(j) => j,
        None => {
            return None;
        },
    };
    let (ptok, i10) = match take_until(s, i9, 34) {
        Some(p) => p,
        None => {
            return None;
        },
    };
    proof {
        lemma_find_byte_from_correct(s@, i9 as int, 34);
    }
    let platform = if eq_bytes(ptok.as_slice(), "PumpFun".as_bytes()) {
        Platform::PumpFun
    } else if eq_bytes(ptok.as_slice(), "LetsBonk".as_bytes()) {
        Platform::LetsBonk
    } else {
        return None;
    };
    let i11 = match expect_lit(s, i10, "\",\"amount_usdc\":".as_bytes()) {
        Some(j) => j,
        None => {
            return None;
        },
    };
    assert(i11 <= s@.len());
    let (amount_usdc, i12) = match opt_field(s, i11, 44) {
        Some(p) => p,
        None => {
            return None;
        },
    };
    proof {
        if spec_expect(s@, i11 as int, spec_l_null()) is Some {
        } else {
            lemma_find_byte_from_correct(s@, i11 as int, 44);
        }
    }
    assert(i12 <= s@.len());
    let i13 = match expect_lit(s, i12, ",\"max_slippage\":".as_bytes()) {
        Some(j) => j,
        None => {
            return None;
        },
    };
    assert(i13 <= s@.len());
    let (max_slippage, i14) = match opt_field(s, i13, 125) {
        Some(p) => p,
        None => {
            return None;
        },
    };
    let i15 = match expect_lit(s, i14, "}".as_bytes()) {
        Some(j) => j,
        None => {
            return None;
        },
    };
    if i15 != s.len() {
        return None;
    }
    Some(LaunchEvent { mint, creator, holders_60, lp, platform, amount_usdc, max_slippage })
}

} // verus!
