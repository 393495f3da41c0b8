//! Byte-string utilities.
//!
//! Identifiers, log lines and wire text are handled as byte strings.  This
//! module gives the substring, comparison, splitting and case-folding
//! primitives that normalisation and gating are specified with.

use vstd::prelude::*;
use vstd::slice::slice_subrange;
use vstd::slice::slice_to_vec;

verus! {

/// The pattern `pat` occurs in `s` at position `i`.
pub open spec fn spec_match_at(s: Seq<u8>, i: int, pat: Seq<u8>) -> bool {
    &&& 0 <= i
    &&& i + pat.len() <= s.len()
    &&& s.subrange(i, i + pat.len()) == pat
}

/// First occurrence of `pat` in `s` at or after position `i`, if any.
pub open spec fn spec_find_sub_from(s: Seq<u8>, pat: Seq<u8>, i: int) -> Option<int>
    decreases s.len() + 1 - i,
{
    if i < 0 || i + pat.len() > s.len() {
        None
    } else if spec_match_at(s, i, pat) {
        Some(i)
    } else {
        spec_find_sub_from(s, pat, i + 1)
    }
}

/// First occurrence of `pat` in `s`, if any.
pub open spec fn spec_find_sub(s: Seq<u8>, pat: Seq<u8>) -> Option<int> {
    spec_find_sub_from(s, pat, 0)
}

/// `pat` occurs somewhere in `s`.
pub open spec fn spec_contains_sub(s: Seq<u8>, pat: Seq<u8>) -> bool {
    exists|i: int| spec_match_at(s, i, pat)
}

/// A found index is a match, and a `None` means no match exists at or after
/// the start position.
pub proof fn lemma_find_sub_from_correct(s: Seq<u8>, pat: Seq<u8>, i: int)
    requires
        0 <= i,
    ensures
        match spec_find_sub_from(s, pat, i) {
            Some(j) => i <= j && spec_match_at(s, j, pat) && forall|k: int|
                i <= k < j ==> !spec_match_at(s, k, pat),
            None => forall|k: int| k >= i ==> !spec_match_at(s, k, pat),
        },
    decreases s.len() + 1 - i,
{
    if i + pat.len() > s.len() {
        assert(forall|k: int| k >= i ==> !#[trigger] spec_match_at(s, k, pat));
    } else if spec_match_at(s, i, pat) {
    } else {
        lemma_find_sub_from_correct(s, pat, i + 1);
    }
}

/// `spec_find_sub` finds a match exactly when one exists.
pub proof fn lemma_find_sub_characterises(s: Seq<u8>, pat: Seq<u8>)
    ensures
        spec_find_sub(s, pat) is Some <==> spec_contains_sub(s, pat),
{
    lemma_find_sub_from_correct(s, pat, 0);
    if spec_contains_sub(s, pat) {
        let i = choose|i: int| spec_match_at(s, i, pat);
        assert(i >= 0);
    }
}

/// Whether `pat` occurs in `s` at position `i`.
pub fn match_at(s: &[u8], i: usize, pat: &[u8]) -> (r: bool)
    requires
        i + pat@.len() <= s@.len(),
    ensures
        r == spec_match_at(s@, i as int, pat@),
{
    assert(s@.len() == s.len());
    let mut j: usize = 0;
    while j < pat.len()
        invariant
            0 <= j <= pat@.len(),
            i + pat@.len() <= s@.len(),
            s@.len() <= usize::MAX,
            forall|k: int| 0 <= k < j ==> s@[i + k] == pat@[k],
        decreases pat@.len() - j,
    {
        if s[i + j] != pat[j] {
            assert(s@.subrange(i as int, i + pat@.len())[j as int] != pat@[j as int]);
            return false;
        }
        j += 1;
    }
    assert(s@.subrange(i as int, i + pat@.len()) =~= pat@);
    true
}

/// Position of the first occurrence of `pat` in `s`, if any.
pub fn find_sub(s: &[u8], pat: &[u8]) -> (r: Option<usize>)
    ensures
        match r {
            Some(j) => Some(j as int) == spec_find_sub(s@, pat@),
            None => spec_find_sub(s@, pat@) is None,
        },
{
    if pat.len() > s.len() {
        return None;
    }
    if pat.len() == 0 {
        assert(s@.subrange(0, 0) =~= pat@);
        return Some(0);
    }
    let bound = s.len() - pat.len();
    let mut i: usize = 0;
    while i <= bound
        invariant
            0 <= i <= bound + 1,
            bound == s@.len() - pat@.len(),
            0 < pat@.len() <= s@.len(),
            s@.len() <= usize::MAX,
            spec_find_sub(s@, pat@) == spec_find_sub_from(s@, pat@, i as int),
        decreases bound + 1 - i,
    {
        if match_at(s, i, pat) {
            return Some(i);
        }
        i += 1;
    }
    None
}

/// Whether `pat` occurs anywhere in `s`.
pub fn contains_sub(s: &[u8], pat: &[u8]) -> (r: bool)
    ensures
        r == spec_contains_sub(s@, pat@),
{
    proof {
        lemma_find_sub_characterises(s@, pat@);
    }
    match find_sub(s, pat) {
        Some(_) => true,
        None => false,
    }
}

/// Byte-string equality.
pub fn eq_bytes(a: &[u8], b: &[u8]) -> (r: bool)
    ensures
        r == (a@ == b@),
{
    if a.len() != b.len() {
        return false;
    }
    let mut i: usize = 0;
    while i < a.len()
        invariant
            0 <= i <= a@.len(),
            a@.len() == b@.len(),
            forall|k: int| 0 <= k < i ==> a@[k] == b@[k],
        decreases a@.len() - i,
    {
        if a[i] != b[i] {
            return false;
        }
        i += 1;
    }
    proof {
        assert(a@ =~= b@);
    }
    true
}

/// `s` begins with `pre`.
pub open spec fn spec_starts_with(s: Seq<u8>, pre: Seq<u8>) -> bool {
    spec_match_at(s, 0, pre)
}

/// Whether `s` begins with `pre`.
pub fn starts_with(s: &[u8], pre: &[u8]) -> (r: bool)
    ensures
        r == spec_starts_with(s@, pre@),
{
    if pre.len() > s.len() {
        return false;
    }
    match_at(s, 0, pre)
}

/// ASCII whitespace, as the log-line token extractor understands it.
pub open spec fn spec_is_ws(b: u8) -> bool {
    b == 32 || b == 9 || b == 10 || b == 13
}

/// Whether `b` is ASCII whitespace.
pub fn is_ws(b: u8) -> (r: bool)
    ensures
        r == spec_is_ws(b),
{
    b == 32 || b == 9 || b == 10 || b == 13
}

/// ASCII lower-casing of one byte.
pub open spec fn spec_lower_byte(b: u8) -> u8 {
    if 65 <= b && b <= 90 {
        (b + 32) as u8
    } else {
        b
    }
}

/// ASCII lower-casing of a byte string.
pub open spec fn spec_lower(s: Seq<u8>) -> Seq<u8> {
    s.map_values(|b: u8| spec_lower_byte(b))
}

/// ASCII lower-cased copy of `s`.
pub fn to_ascii_lower(s: &[u8]) -> (r: Vec<u8>)
    ensures
        r@ == spec_lower(s@),
{
    let mut out: Vec<u8> = Vec::new();
    let mut i: usize = 0;
    while i < s.len()
        invariant
            0 <= i <= s@.len(),
            out@ == s@.take(i as int).map_values(|b: u8| spec_lower_byte(b)),
        decreases s@.len() - i,
    {
        let b = s[i];
        if 65 <= b && b <= 90 {
            out.push(b + 32);
        } else {
            out.push(b);
        }
        i += 1;
        proof {
            assert(s@.take(i as int).map_values(|b: u8| spec_lower_byte(b)) =~= s@.take(
                i - 1,
            ).map_values(|b: u8| spec_lower_byte(b)).push(spec_lower_byte(s@[i - 1])));
        }
    }
    proof {
        assert(s@.take(s@.len() as int) =~= s@);
    }
    out
}

/// First position at or after `i` holding byte `b`, if any.
pub open spec fn spec_find_byte_from(s: Seq<u8>, i: int, b: u8) -> Option<int>
    decreases s.len() - i,
{
    if i < 0 || i >= s.len() {
        None
    } else if s[i] == b {
        Some(i)
    } else {
        spec_find_byte_from(s, i + 1, b)
    }
}

/// A found byte position is in range and earliest; `None` means the byte does
/// not occur at or after `i`.
pub proof fn lemma_find_byte_from_correct(s: Seq<u8>, i: int, b: u8)
    requires
        0 <= i,
    ensures
        match spec_find_byte_from(s, i, b) {
            Some(j) => i <= j < s.len() && s[j] == b && forall|k: int| i <= k < j ==> s[k] != b,
            None => forall|k: int| i <= k < s.len() ==> s[k] != b,
        },
    decreases s.len() - i,
{
    if i >= s.len() {
    } else if s[i] == b {
    } else {
        lemma_find_byte_from_correct(s, i + 1, b);
    }
}

/// A byte at `j` with none before it pins the search down.
pub proof fn lemma_find_byte_exact(s: Seq<u8>, i: int, j: int, b: u8)
    requires
        0 <= i <= j < s.len(),
        s[j] == b,
        forall|k: int| i <= k < j ==> s[k] != b,
    ensures
        spec_find_byte_from(s, i, b) == Some(j),
{
    lemma_find_byte_from_correct(s, i, b);
    match spec_find_byte_from(s, i, b) {
        Some(j2) => {
            if j2 < j {
                assert(s[j2] != b);
            }
            if j < j2 {
                assert(s[j] != b);
            }
        },
        None => {
            assert(s[j] != b);
        },
    }
}

/// Position of the first occurrence of byte `b` in `s` at or after `i`.
pub fn find_byte_from(s: &[u8], i: usize, b: u8) -> (r: Option<usize>)
    ensures
        match r {
            Some(j) => Some(j as int) == spec_find_byte_from(s@, i as int, b),
            None => spec_find_byte_from(s@, i as int, b) is None,
        },
{
    let mut j: usize = i;
    while j < s.len()
        invariant
            i <= j,
            spec_find_byte_from(s@, i as int, b) == spec_find_byte_from(s@, j as int, b),
        decreases s@.len() - j,
    {
        if s[j] == b {
            return Some(j);
        }
        j += 1;
    }
    None
}

/// `s` split on `sep`: the pieces between separators, in order, with empty
/// pieces kept.
pub open spec fn spec_split(s: Seq<u8>, sep: u8) -> Seq<Seq<u8>>
    decreases s.len(),
    via spec_split_decreases
{
    match spec_find_byte_from(s, 0, sep) {
        None => seq![s],
        Some(k) => seq![s.take(k)] + spec_split(s.skip(k + 1), sep),
    }
}

#[via_fn]
proof fn spec_split_decreases(s: Seq<u8>, sep: u8) {
    lemma_find_byte_from_correct(s, 0, sep);
}

/// Splits `s` on `sep`, keeping empty pieces.
pub fn split_bytes(s: &[u8], sep: u8) -> (r: Vec<Vec<u8>>)
    ensures
        r.deep_view() == spec_split(s@, sep),
    decreases s@.len(),
{
    proof {
        lemma_find_byte_from_correct(s@, 0, sep);
    }
    assert(s@.len() == s.len());
    match find_byte_from(s, 0, sep) {
        None => {
            let mut out: Vec<Vec<u8>> = Vec::new();
            out.push(slice_to_vec(s));
            proof {
                assert(out.deep_view() =~~= spec_split(s@, sep));
            }
            out
        },
        Some(k) => {
            let piece = slice_to_vec(slice_subrange(s, 0, k));
            let mut rest = split_bytes(slice_subrange(s, k + 1, s.len()), sep);
            let mut out: Vec<Vec<u8>> = Vec::new();
            out.push(piece);
            out.append(&mut rest);
            proof {
                assert(s@.subrange(0, k as int) =~= s@.take(k as int));
                assert(s@.subrange(k + 1, s@.len() as int) =~= s@.skip(k + 1));
                assert(out.deep_view() =~~= spec_split(s@, sep));
            }
            out
        },
    }
}

/// `s` with leading and trailing ASCII whitespace removed.
pub open spec fn spec_trim(s: Seq<u8>) -> Seq<u8>
    decreases s.len(),
{
    if s.len() > 0 && spec_is_ws(s.first()) {
        spec_trim(s.drop_first())
    } else if s.len() > 0 && spec_is_ws(s.last()) {
        spec_trim(s.drop_last())
    } else {
        s
    }
}

/// Copy of `s` with leading and trailing ASCII whitespace removed.
pub fn trim_ascii(s: &[u8]) -> (r: Vec<u8>)
    ensures
        r@ == spec_trim(s@),
    decreases s@.len(),
{
    if s.len() > 0 && is_ws(s[0]) {
        let r = trim_ascii(slice_subrange(s, 1, s.len()));
        proof {
            assert(s@.subrange(1, s@.len() as int) =~= s@.drop_first());
        }
        r
    } else if s.len() > 0 && is_ws(s[s.len() - 1]) {
        let r = trim_ascii(slice_subrange(s, 0, s.len() - 1));
        proof {
            assert(s@.subrange(0, s@.len() - 1) =~= s@.drop_last());
        }
        r
    } else {
        slice_to_vec(s)
    }
}

} // verus!
