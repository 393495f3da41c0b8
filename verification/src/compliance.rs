//! The compliance denylist.
//!
//! A set of opaque identifiers sourced from a comma-separated configuration
//! value; the trader skips any event whose creator or mint is listed.

use vstd::prelude::*;

use crate::text::spec_split;
use crate::text::spec_trim;
use crate::text::eq_bytes;
use crate::text::split_bytes;
use crate::text::trim_ascii;

verus! {

/// A denylist entry matches `addr`.
pub open spec fn spec_denylist_contains(entries: Seq<Seq<u8>>, addr: Seq<u8>) -> bool {
    exists|i: int| 0 <= i < entries.len() && entries[i] == addr
}

/// The non-empty trimmed pieces of a split configuration value, in order.
pub open spec fn spec_denylist_of(pieces: Seq<Seq<u8>>) -> Seq<Seq<u8>>
    decreases pieces.len(),
{
    if pieces.len() == 0 {
        Seq::empty()
    } else {
        let rest = spec_denylist_of(pieces.drop_last());
        let t = spec_trim(pieces.last());
        if t.len() > 0 {
            rest.push(t)
        } else {
            rest
        }
    }
}

/// The denylist a comma-separated configuration value describes.
pub open spec fn spec_parse_denylist(s: Seq<u8>) -> Seq<Seq<u8>> {
    spec_denylist_of(spec_split(s, 44))
}

/// The set of sanctioned identifiers, read once from configuration.
pub struct Denylist {
    entries: Vec<Vec<u8>>,
}

impl View for Denylist {
    type V = Seq<Seq<u8>>;

    closed spec fn view(&self) -> Seq<Seq<u8>> {
        self.entries.deep_view()
    }
}

impl Denylist {
    /// The empty denylist, used when no configuration value is set.
    pub fn new() -> (r: Denylist)
        ensures
            r@ =~= Seq::<Seq<u8>>::empty(),
    {
        Denylist { entries: Vec::new() }
    }

    /// Parses a comma-separated list of identifiers, trimming each and
    /// passing over empty pieces.
    pub fn parse(s: &[u8]) -> (r: Denylist)
        ensures
            r@ == spec_parse_denylist(s@),
    {
        let pieces = split_bytes(s, 44);
        let mut entries: Vec<Vec<u8>> = Vec::new();
        let mut i: usize = 0;
        while i < pieces.len()
            invariant
                0 <= i <= pieces@.len(),
                entries.deep_view() == spec_denylist_of(pieces.deep_view().take(i as int)),
            decreases pieces@.len() - i,
        {
            let t = trim_ascii(pieces[i].as_slice());
            if t.len() > 0 {
                entries.push(t);
            }
            i += 1;
            proof {
                let pv = pieces.deep_view();
                assert(pv[i - 1] == pieces@[i - 1].deep_view());
                assert(pieces@[i - 1].deep_view() =~= pieces@[i - 1]@);
                assert(pv.take(i as int).drop_last() =~= pv.take(i - 1));
                assert(pv.take(i as int).last() == pv[i - 1]);
                assert(entries.deep_view() =~~= spec_denylist_of(pv.take(i as int)));
            }
        }
        proof {
            assert(pieces.deep_view().take(pieces@.len() as int) =~= pieces.deep_view());
        }
        Denylist { entries }
    }

    /// Whether the supplied identifier is on the denylist.
    pub fn is_sanctioned(&self, addr: &[u8]) -> (r: bool)
        ensures
            r == spec_denylist_contains(self@, addr@),
    {
        let mut i: usize = 0;
        while i < self.entries.len()
            invariant
                0 <= i <= self.entries@.len(),
                forall|k: int| 0 <= k < i ==> self.entries.deep_view()[k] != addr@,
            decreases self.entries@.len() - i,
        {
            if eq_bytes(self.entries[i].as_slice(), addr) {
                proof {
                    assert(self.entries.deep_view()[i as int] =~= self.entries@[i as int]@);
                }
                return true;
            }
            i += 1;
            proof {
                assert(self.entries.deep_view()[i - 1] =~= self.entries@[i - 1]@);
            }
        }
        false
    }

    /// Checks an identifier against the denylist: `Ok` exactly when the
    /// identifier is not listed.
    pub fn check_ofac_sanctions(&self, addr: &[u8]) -> (r: Result<(), ComplianceError>)
        ensures
            r is Ok <==> !spec_denylist_contains(self@, addr@),
    {
        if self.is_sanctioned(addr) {
            Err(ComplianceError::Sanctioned)
        } else {
            Ok(())
        }
    }
}

/// Why a compliance check refused an identifier.
#[derive(Clone, Copy, Debug, PartialEq, Eq, Structural)]
pub enum ComplianceError {
    /// The identifier is on the denylist.
    Sanctioned,
}

} // verus!
