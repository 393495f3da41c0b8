//! Frame normalisation for the log-subscription feed.
//!
//! A frame is accepted only if it is a JSON-RPC notification with method
//! `logsNotification`, a null (or absent) inner `err`, and a log line carrying
//! the launch indicator `initialize2` (the indicator both supported platforms
//! publish).  Fields are extracted by scanning each log line for the literal
//! prefixes `Program log: mint: `, `Program log: creator: `,
//! `Program log: holders_60: ` and `Program log: lp: ` and taking the first
//! whitespace-delimited token after the prefix; the last occurrence wins.  An
//! event is emitted only when both `mint` and `creator` are non-empty; a
//! missing or unparsable `holders_60` or `lp` defaults to 0.
//!
//! JSON decoding itself is delegated to `serde_json` behind one trusted
//! wrapper; everything downstream of it is verified.

use vstd::prelude::*;
use vstd::slice::slice_subrange;
use vstd::slice::slice_to_vec;
use vstd::string::StringSliceAdditionalSpecFns;
use vstd::string::is_ascii;

use crate::event::LaunchEvent;
use crate::event::LaunchEventView;
use crate::event::Platform;
use crate::numeric::spec_parse_u64;
use crate::numeric::spec_parse_decimal_micro;
use crate::numeric::parse_u64_dec;
use crate::numeric::parse_decimal_micro;
use crate::text::spec_contains_sub;
use crate::text::spec_find_sub;
use crate::text::spec_is_ws;
use crate::text::spec_match_at;
use crate::text::spec_starts_with;
use crate::text::contains_sub;
use crate::text::eq_bytes;
use crate::text::find_sub;
use crate::text::lemma_find_sub_from_correct;
use crate::text::starts_with;

verus! {

/// Frames longer than this many bytes are dropped without ending the stream.
pub const MAX_MSG_LEN: usize = 65536;

/// What `serde_json` finds in a frame: `None` when the bytes are not a JSON
/// object holding a string `method`, a `params` object with an unsigned
/// `subscription`, and a `params.result.value` object with a string array
/// `logs`; otherwise the method name, whether the inner `err` is absent or
/// null, and the log lines.  JSON decoding is a function of the bytes alone.
pub uninterp spec fn frame_parts_of(s: Seq<u8>) -> Option<(Seq<u8>, bool, Seq<Seq<u8>>)>;

/// Relies on `serde_json::from_slice` and the `serde_json::Value` accessors
/// `get`, `as_str`, `as_u64`, `is_null` and `as_array`: together they decode a
/// notification frame, a pure function of the input bytes, named
/// `frame_parts_of`.
#[verifier::external_body]
fn decode_frame(raw: &[u8]) -> (r: Option<(Vec<u8>, bool, Vec<Vec<u8>>)>)
    ensures
        r.deep_view() == frame_parts_of(raw@),
{
    let v: serde_json::Value = serde_json::from_slice(raw).ok()?;
    let method = v.get("method")?.as_str()?.as_bytes().to_vec();
    let params = v.get("params")?;
    params.get("subscription")?.as_u64()?;
    let value = params.get("result")?.get("value")?;
    let err_null = match value.get("err") {
        None => true,
        Some(e) => e.is_null(),
    };
    let mut logs: Vec<Vec<u8>> = Vec::new();
    for l in value.get("logs")?.as_array()? {
        logs.push(l.as_str()?.as_bytes().to_vec());
    }
    Some((method, err_null, logs))
}

/// The notification method name.
pub open spec fn spec_method_lit() -> Seq<u8> {
    "logsNotification".spec_bytes()
}

/// The launch indicator looked for in log lines.
pub open spec fn spec_indicator_lit() -> Seq<u8> {
    "initialize2".spec_bytes()
}

/// Prefix of the log line carrying the token identifier.
pub open spec fn spec_mint_prefix() -> Seq<u8> {
    "Program log: mint: ".spec_bytes()
}

/// Prefix of the log line carrying the creator account.
pub open spec fn spec_creator_prefix() -> Seq<u8> {
    "Program log: creator: ".spec_bytes()
}

/// Prefix of the log line carrying the holder count.
pub open spec fn spec_holders_prefix() -> Seq<u8> {
    "Program log: holders_60: ".spec_bytes()
}

/// Prefix of the log line carrying the liquidity proxy.
pub open spec fn spec_lp_prefix() -> Seq<u8> {
    "Program log: lp: ".spec_bytes()
}

/// First position at or after `j` holding a non-whitespace byte, or the end.
pub open spec fn spec_skip_ws(s: Seq<u8>, j: int) -> int
    decreases s.len() - j,
{
    if j < 0 || j >= s.len() {
        s.len() as int
    } else if spec_is_ws(s[j]) {
        spec_skip_ws(s, j + 1)
    } else {
        j
    }
}

/// First position at or after `j` holding a whitespace byte, or the end.
pub open spec fn spec_ws_end(s: Seq<u8>, j: int) -> int
    decreases s.len() - j,
{
    if j < 0 || j >= s.len() {
        s.len() as int
    } else if spec_is_ws(s[j]) {
        j
    } else {
        spec_ws_end(s, j + 1)
    }
}

/// The first whitespace-delimited token at or after `j`; empty when only
/// whitespace remains.
pub open spec fn spec_first_token(s: Seq<u8>, j: int) -> Seq<u8> {
    let a = spec_skip_ws(s, j);
    let b = spec_ws_end(s, a);
    s.subrange(a, b)
}

/// `spec_skip_ws` and `spec_ws_end` stay within `[j, s.len()]` and are
/// ordered.
pub proof fn lemma_token_bounds(s: Seq<u8>, j: int)
    requires
        0 <= j <= s.len(),
    ensures
        j <= spec_skip_ws(s, j) <= s.len(),
        j <= spec_ws_end(s, j) <= s.len(),
    decreases s.len() - j,
{
    if j < s.len() {
        lemma_token_bounds(s, j + 1);
    }
}

/// The value a log line contributes for `prefix`: the first token after the
/// first occurrence of the prefix, if the line holds it at all.
pub open spec fn spec_extract(log: Seq<u8>, prefix: Seq<u8>) -> Option<Seq<u8>> {
    match spec_find_sub(log, prefix) {
        None => None,
        Some(i) => Some(spec_first_token(log, i + prefix.len())),
    }
}

/// The value the whole frame assigns to `prefix`: the contribution of the last
/// log line holding it.
pub open spec fn spec_scan_last(logs: Seq<Seq<u8>>, prefix: Seq<u8>) -> Option<Seq<u8>>
    decreases logs.len(),
{
    if logs.len() == 0 {
        None
    } else {
        match spec_extract(logs.last(), prefix) {
            Some(v) => Some(v),
            None => spec_scan_last(logs.drop_last(), prefix),
        }
    }
}

/// Some log line carries the launch indicator.
pub open spec fn spec_has_indicator(logs: Seq<Seq<u8>>) -> bool {
    exists|i: int| 0 <= i < logs.len() && spec_contains_sub(#[trigger] logs[i], spec_indicator_lit())
}

/// Holder count encoded by an extracted token: 0 when the token is absent,
/// not a numeral, or out of range.
pub open spec fn spec_holders_value(t: Option<Seq<u8>>) -> u32 {
    match t {
        Some(tok) => match spec_parse_u64(tok) {
            Some(v) => if v <= u32::MAX {
                v as u32
            } else {
                0
            },
            None => 0,
        },
        None => 0,
    }
}

/// Liquidity (micro units) encoded by an extracted token: 0 when the token is
/// absent or not a decimal.
pub open spec fn spec_lp_value(t: Option<Seq<u8>>) -> u64 {
    match t {
        Some(tok) => match spec_parse_decimal_micro(tok) {
            Some(v) => v,
            None => 0,
        },
        None => 0,
    }
}

/// The event a frame normalises to, if any: the frame must be of bounded
/// size, decode as a `logsNotification` with null `err`, carry the launch
/// indicator, and yield non-empty `mint` and `creator` tokens.
pub open spec fn spec_normalise(s: Seq<u8>, platform: Platform) -> Option<LaunchEventView> {
    if s.len() > MAX_MSG_LEN {
        None
    } else {
        match frame_parts_of(s) {
            None => None,
            Some(parts) => {
                if parts.0 != spec_method_lit() || !parts.1 {
                    None
                } else if !spec_has_indicator(parts.2) {
                    None
                } else {
                    let mint = spec_scan_last(parts.2, spec_mint_prefix());
                    let creator = spec_scan_last(parts.2, spec_creator_prefix());
                    let holders = spec_scan_last(parts.2, spec_holders_prefix());
                    let lp = spec_scan_last(parts.2, spec_lp_prefix());
                    if mint is Some && mint.unwrap().len() > 0 && creator is Some
                        && creator.unwrap().len() > 0 {
                        Some(
                            LaunchEventView {
                                mint: mint.unwrap(),
                                creator: creator.unwrap(),
                                holders_60: spec_holders_value(holders),
                                lp: spec_lp_value(lp),
                                platform,
                                amount_usdc: None,
                                max_slippage: None,
                            },
                        )
                    } else {
                        None
                    }
                }
            },
        }
    }
}

/// The first whitespace-delimited token of `s` at or after `j`.
fn first_token(s: &[u8], j: usize) -> (r: Vec<u8>)
    requires
        j <= s@.len(),
    ensures
        r@ == spec_first_token(s@, j as int),
{
    proof {
        lemma_token_bounds(s@, j as int);
    }
    let mut a: usize = j;
    while a < s.len() && (s[a] == 32 || s[a] == 9 || s[a] == 10 || s[a] == 13)
        invariant
            j <= a <= s@.len(),
            spec_skip_ws(s@, j as int) == spec_skip_ws(s@, a as int),
        decreases s@.len() - a,
    {
        a += 1;
    }
    assert(spec_skip_ws(s@, j as int) == a);
    proof {
        lemma_token_bounds(s@, a as int);
    }
    let mut b: usize = a;
    while b < s.len() && !(s[b] == 32 || s[b] == 9 || s[b] == 10 || s[b] == 13)
        invariant
            a <= b <= s@.len(),
            spec_ws_end(s@, a as int) == spec_ws_end(s@, b as int),
        decreases s@.len() - b,
    {
        b += 1;
    }
    assert(spec_ws_end(s@, a as int) == b);
    slice_to_vec(slice_subrange(s, a, b))
}

/// Extracts the value a log line contributes for `prefix`: the first
/// whitespace-delimited token after the first occurrence of the prefix.
pub fn extract_from_log(log: &[u8], prefix: &[u8]) -> (r: Option<Vec<u8>>)
    ensures
        r.deep_view() == spec_extract(log@, prefix@),
{
    proof {
        lemma_find_sub_from_correct(log@, prefix@, 0);
    }
    assert(log@.len() == log.len());
    match find_sub(log, prefix) {
        None => None,
        Some(i) => {
            assert(spec_match_at(log@, i as int, prefix@));
            Some(first_token(log, i + prefix.len()))
        },
    }
}

/// Token value scanned from the log lines for `prefix`, last occurrence
/// winning.
fn scan_last(logs: &Vec<Vec<u8>>, prefix: &[u8]) -> (r: Option<Vec<u8>>)
    ensures
        r.deep_view() == spec_scan_last(logs.deep_view(), prefix@),
{
    let mut r: Option<Vec<u8>> = None;
    let mut i: usize = 0;
    while i < logs.len()
        invariant
            0 <= i <= logs@.len(),
            r.deep_view() == spec_scan_last(logs.deep_view().take(i as int), prefix@),
        decreases logs@.len() - i,
    {
        let found = extract_from_log(logs[i].as_slice(), prefix);
        if found.is_some() {
            r = found;
        }
        i += 1;
        proof {
            let lv = logs.deep_view();
            assert(lv[i - 1] == logs@[i - 1].deep_view());
            assert(logs@[i - 1].deep_view() =~= logs@[i - 1]@);
            assert(lv.take(i as int).drop_last() =~= lv.take(i - 1));
            assert(lv.take(i as int).last() == lv[i - 1]);
        }
    }
    proof {
        assert(logs.deep_view().take(logs@.len() as int) =~= logs.deep_view());
    }
    r
}

/// Whether some log line carries the launch indicator.
fn has_indicator(logs: &Vec<Vec<u8>>, indicator: &[u8]) -> (r: bool)
    requires
        indicator@ == spec_indicator_lit(),
    ensures
        r == spec_has_indicator(logs.deep_view()),
{
    let mut i: usize = 0;
    while i < logs.len()
        invariant
            0 <= i <= logs@.len(),
            indicator@ == spec_indicator_lit(),
            forall|k: int| 0 <= k < i ==> !spec_contains_sub(
                #[trigger] logs.deep_view()[k],
                spec_indicator_lit(),
            ),
        decreases logs@.len() - i,
    {
        if contains_sub(logs[i].as_slice(), indicator) {
            proof {
                assert(logs.deep_view()[i as int] =~= logs@[i as int]@);
            }
            assert(spec_contains_sub(logs.deep_view()[i as int], spec_indicator_lit()));
            return true;
        }
        i += 1;
        proof {
            assert(logs.deep_view()[i - 1] =~= logs@[i - 1]@);
        }
    }
    false
}

/// Holder count carried by a scanned token.
fn holders_value(t: &Option<Vec<u8>>) -> (r: u32)
    ensures
        r == spec_holders_value(t.deep_view()),
{
    match t {
        Some(tok) => {
            proof {
                assert(tok.deep_view() =~= tok@);
            }
            match parse_u64_dec(tok.as_slice()) {
                Some(v) => if v <= u32::MAX as u64 {
                    v as u32
                } else {
                    0
                },
                None => 0,
            }
        },
        None => 0,
    }
}

/// Liquidity in micro units carried by a scanned token.
fn lp_value(t: &Option<Vec<u8>>) -> (r: u64)
    ensures
        r == spec_lp_value(t.deep_view()),
{
    match t {
        Some(tok) => {
            proof {
                assert(tok.deep_view() =~= tok@);
            }
            match parse_decimal_micro(tok.as_slice()) {
                Some(v) => v,
                None => 0,
            }
        },
        None => 0,
    }
}

/// Validates and parses one raw frame of the log-subscription stream.
///
/// Returns the launch event the frame encodes, or `None` for an oversized
/// frame, one that is not an accepted notification, or one without the
/// required fields.  The result is a function of the frame bytes and the
/// platform alone.
pub fn normalise_message(raw: &[u8], platform: Platform) -> (r: Option<LaunchEvent>)
    ensures
        match r {
            Some(ev) => spec_normalise(raw@, platform) == Some(ev@),
            None => spec_normalise(raw@, platform) is None,
        },
        raw@.len() > MAX_MSG_LEN ==> r is None,
{
    if raw.len() > MAX_MSG_LEN {
        return None;
    }
    let parts = match decode_frame(raw) {
        Some(p) => p,
        None => {
            return None;
        },
    };
    let (method, err_null, logs) = parts;
    proof {
        assert(frame_parts_of(raw@) == Some((method.deep_view(), err_null, logs.deep_view())));
        assert(method.deep_view() =~= method@);
    }
    let method_lit: &[u8] = "logsNotification".as_bytes();
    assert(method_lit@ == spec_method_lit());
    if !eq_bytes(method.as_slice(), method_lit) || !err_null {
        return None;
    }
    let indicator: &[u8] = "initialize2".as_bytes();
    if !has_indicator(&logs, indicator) {
        return None;
    }
    let mint_prefix: &[u8] = "Program log: mint: ".as_bytes();
    let creator_prefix: &[u8] = "Program log: creator: ".as_bytes();
    let holders_prefix: &[u8] = "Program log: holders_60: ".as_bytes();
    let lp_prefix: &[u8] = "Program log: lp: ".as_bytes();
    let mint_tok = scan_last(&logs, mint_prefix);
    let creator_tok = scan_last(&logs, creator_prefix);
    let holders_tok = scan_last(&logs, holders_prefix);
    let lp_tok = scan_last(&logs, lp_prefix);
    let holders_60: u32 = holders_value(&holders_tok);
    let lp: u64 = lp_value(&lp_tok);
    let mint = match mint_tok {
        Some(m) => m,
        None => {
            return None;
        },
    };
    let creator = match creator_tok {
        Some(c) => c,
        None => {
            return None;
        },
    };
    proof {
        assert(mint.deep_view() =~= mint@);
        assert(creator.deep_view() =~= creator@);
    }
    if mint.len() == 0 || creator.len() == 0 {
        return None;
    }
    Some(
        LaunchEvent {
            mint,
            creator,
            holders_60,
            lp,
            platform,
            amount_usdc: None,
            max_slippage: None,
        },
    )
}

/// The secure-websocket form of an RPC URL: the scheme rewritten from
/// `https`/`http` to `wss`/`ws`, anything else left unchanged.
pub open spec fn spec_ws_url(s: Seq<u8>) -> Seq<u8> {
    if spec_starts_with(s, "https://".spec_bytes()) {
        "wss://".spec_bytes() + s.skip("https://".spec_bytes().len() as int)
    } else if spec_starts_with(s, "http://".spec_bytes()) {
        "ws://".spec_bytes() + s.skip("http://".spec_bytes().len() as int)
    } else {
        s
    }
}

/// Derives the websocket URL from an RPC URL by scheme substitution.
pub fn derive_ws_url(rpc_url: &[u8]) -> (r: Vec<u8>)
    ensures
        r@ == spec_ws_url(rpc_url@),
{
    proof {
        reveal_strlit("https://");
        reveal_strlit("http://");
        assert(is_ascii("https://"));
        assert(is_ascii("http://"));
    }
    let https: &[u8] = "https://".as_bytes();
    let http: &[u8] = "http://".as_bytes();
    assert(https@.len() == 8);
    assert(http@.len() == 7);
    if starts_with(rpc_url, https) {
        let mut out = slice_to_vec("wss://".as_bytes());
        out.extend_from_slice(slice_subrange(rpc_url, 8, rpc_url.len()));
        proof {
            assert(rpc_url@.subrange(8, rpc_url@.len() as int) =~= rpc_url@.skip(8));
            assert(out@ =~= spec_ws_url(rpc_url@));
        }
        out
    } else if starts_with(rpc_url, http) {
        let mut out = slice_to_vec("ws://".as_bytes());
        out.extend_from_slice(slice_subrange(rpc_url, 7, rpc_url.len()));
        proof {
            assert(rpc_url@.subrange(7, rpc_url@.len() as int) =~= rpc_url@.skip(7));
            assert(out@ =~= spec_ws_url(rpc_url@));
        }
        out
    } else {
        slice_to_vec(rpc_url)
    }
}

/// Opening of the subscription request, up to the program identifier.
pub open spec fn spec_subscribe_prefix() -> Seq<u8> {
    "{\"jsonrpc\":\"2.0\",\"id\":1,\"method\":\"logsSubscribe\",\"params\":[{\"mentions\":[\"".spec_bytes()
}

/// Close of the subscription request, after the program identifier.
pub open spec fn spec_subscribe_suffix() -> Seq<u8> {
    "\"]},{\"commitment\":\"finalized\"}]}".spec_bytes()
}

/// The subscription request sent after connecting: a `logsSubscribe` call
/// mentioning the platform's program identifier, at `finalized` commitment.
pub fn build_subscribe_request(program_id: &[u8]) -> (r: Vec<u8>)
    ensures
        r@ == spec_subscribe_prefix() + program_id@ + spec_subscribe_suffix(),
{
    let mut out = slice_to_vec(
        "{\"jsonrpc\":\"2.0\",\"id\":1,\"method\":\"logsSubscribe\",\"params\":[{\"mentions\":[\"".as_bytes(),
    );
    out.extend_from_slice(program_id);
    out.extend_from_slice("\"]},{\"commitment\":\"finalized\"}]}".as_bytes());
    proof {
        assert(out@ =~= spec_subscribe_prefix() + program_id@ + spec_subscribe_suffix());
    }
    out
}

/// The platforms named by the split pieces of a configuration value, each
/// piece trimmed; unknown names are passed over.
pub open spec fn spec_platforms_of(pieces: Seq<Seq<u8>>) -> Seq<Platform>
    decreases pieces.len(),
{
    if pieces.len() == 0 {
        Seq::empty()
    } else {
        let rest = spec_platforms_of(pieces.drop_last());
        match crate::event::spec_parse_platform(crate::text::spec_trim(pieces.last())) {
            Some(p) => rest.push(p),
            None => rest,
        }
    }
}

/// The platforms a comma-separated configuration value names.
pub open spec fn spec_parse_platforms(s: Seq<u8>) -> Seq<Platform> {
    spec_platforms_of(crate::text::spec_split(s, 44))
}

/// Parses the comma-separated platform list from configuration, trimming each
/// name and passing over unrecognised ones.
pub fn parse_platforms(s: &[u8]) -> (r: Vec<Platform>)
    ensures
        r@ == spec_parse_platforms(s@),
{
    let pieces = crate::text::split_bytes(s, 44);
    let mut out: Vec<Platform> = Vec::new();
    let mut i: usize = 0;
    while i < pieces.len()
        invariant
            0 <= i <= pieces@.len(),
            out@ == spec_platforms_of(pieces.deep_view().take(i as int)),
        decreases pieces@.len() - i,
    {
        let trimmed = crate::text::trim_ascii(pieces[i].as_slice());
        match Platform::from_str(trimmed.as_slice()) {
            Some(p) => {
                out.push(p);
            },
            None => {},
        }
        i += 1;
        proof {
            let pv = pieces.deep_view();
            assert(pv[i - 1] == pieces@[i - 1].deep_view());
            assert(pieces@[i - 1].deep_view() =~= pieces@[i - 1]@);
            assert(pv.take(i as int).drop_last() =~= pv.take(i - 1));
            assert(pv.take(i as int).last() == pv[i - 1]);
        }
    }
    proof {
        assert(pieces.deep_view().take(pieces@.len() as int) =~= pieces.deep_view());
        assert(pieces.deep_view() =~= crate::text::spec_split(s@, 44));
    }
    out
}

/// Two normalisations of the same frame agree: normalisation is pure.
pub proof fn lemma_normalise_pure(
    raw: Seq<u8>,
    platform: Platform,
    r1: Option<LaunchEventView>,
    r2: Option<LaunchEventView>,
)
    requires
        r1 == spec_normalise(raw, platform),
        r2 == spec_normalise(raw, platform),
    ensures
        r1 == r2,
{
}

} // verus!
