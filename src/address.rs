//! Record addresses and their deterministic derivation from seeds.

use vstd::prelude::*;
use vstd::string::StringSliceAdditionalSpecFns;

verus! {

/// A 32-byte account address (a public key or a derived record address).
#[derive(Clone, Copy, Debug)]
pub struct Address {
    pub bytes: [u8; 32],
}

impl View for Address {
    type V = Seq<u8>;

    open spec fn view(&self) -> Seq<u8> {
        self.bytes@
    }
}

impl Address {
    pub fn new(bytes: [u8; 32]) -> (r: Address)
        ensures
            r.bytes == bytes,
    {
        Address { bytes }
    }

    /// Byte-wise comparison of two addresses.
    pub fn same_as(&self, other: &Address) -> (r: bool)
        ensures
            r == (self@ == other@),
    {
        let mut i: usize = 0;
        while i < 32
            invariant
                i <= 32,
                forall|j: int| 0 <= j < i ==> self.bytes@[j] == other.bytes@[j],
            decreases 32 - i,
        {
            if self.bytes[i] != other.bytes[i] {
                return false;
            }
            i = i + 1;
        }
        assert(self@ =~= other@);
        true
    }
}

impl PartialEq for Address {
    fn eq(&self, other: &Address) -> (r: bool) {
        self.same_as(other)
    }
}

impl vstd::std_specs::cmp::PartialEqSpecImpl for Address {
    open spec fn obeys_eq_spec() -> bool {
        true
    }

    open spec fn eq_spec(&self, other: &Address) -> bool {
        self@ == other@
    }
}

/// The address and bump seed that program-address derivation gives for
/// `seeds` under `program`, or `None` when no valid bump seed exists.
pub uninterp spec fn program_address(seeds: Seq<Seq<u8>>, program: Seq<u8>) -> Option<(Seq<u8>, u8)>;

pub open spec fn found_view(r: Option<(Address, u8)>) -> Option<(Seq<u8>, u8)> {
    match r {
        Some((a, bump)) => Some((a@, bump)),
        None => None,
    }
}

/// The derived address alone, without its bump seed.
pub open spec fn derived_key(seeds: Seq<Seq<u8>>, program: Seq<u8>) -> Option<Seq<u8>> {
    match program_address(seeds, program) {
        Some((k, _)) => Some(k),
        None => None,
    }
}

/// Relies on `Pubkey::try_find_program_address` (solana-address, re-exported
/// by anchor-lang): for the given seeds and program id it returns a result
/// that depends on those values alone.
#[verifier::external_body]
fn find_address2(first: &[u8], second: &[u8], program: &Address) -> (r: Option<(Address, u8)>)
    ensures
        found_view(r) == program_address(seq![first@, second@], program@),
{
    let program_id = anchor_lang::prelude::Pubkey::new_from_array(program.bytes);
    match anchor_lang::prelude::Pubkey::try_find_program_address(&[first, second], &program_id) {
        Some((k, bump)) => Some((Address { bytes: k.to_bytes() }, bump)),
        None => None,
    }
}

pub open spec fn session_seeds(seed: Seq<u8>, chairperson: Seq<u8>) -> Seq<Seq<u8>> {
    seq![seed, chairperson]
}

/// The one-byte slot seed of a proposal index.
pub open spec fn slot_seed(index: int) -> Seq<u8> {
    seq![(index % 256) as u8]
}

pub open spec fn proposal_seeds(session: Seq<u8>, index: int) -> Seq<Seq<u8>> {
    seq![session, slot_seed(index)]
}

pub open spec fn marker_seeds(voter: Seq<u8>, proposal: Seq<u8>) -> Seq<Seq<u8>> {
    seq![voter, proposal]
}

fn key_of(r: Option<(Address, u8)>) -> (k: Option<Address>)
    ensures
        match r {
            Some((a, _)) => k == Some(a),
            None => k is None,
        },
{
    match r {
        Some((a, _)) => Some(a),
        None => None,
    }
}

/// Address of the session that `chairperson` opens under `seed`.
pub fn session_address(program: &Address, seed: &str, chairperson: &Address) -> (r: Option<Address>)
    ensures
        match r {
            Some(a) => derived_key(session_seeds(seed.spec_bytes(), chairperson@), program@) == Some(a@),
            None => derived_key(session_seeds(seed.spec_bytes(), chairperson@), program@) is None,
        },
{
    key_of(find_address2(seed.as_bytes(), chairperson.bytes.as_slice(), program))
}

/// Address of proposal slot `index` of `session`.
pub fn proposal_address(program: &Address, session: &Address, index: u32) -> (r: Option<Address>)
    ensures
        match r {
            Some(a) => derived_key(proposal_seeds(session@, index as int), program@) == Some(a@),
            None => derived_key(proposal_seeds(session@, index as int), program@) is None,
        },
{
    let slot: [u8; 1] = [(index % 256) as u8];
    proof {
        assert(slot@ =~= slot_seed(index as int));
    }
    key_of(find_address2(session.bytes.as_slice(), slot.as_slice(), program))
}

/// Address of the marker that records a vote of `voter` on `proposal`.
pub fn vote_marker_address(program: &Address, voter: &Address, proposal: &Address) -> (r: Option<Address>)
    ensures
        match r {
            Some(a) => derived_key(marker_seeds(voter@, proposal@), program@) == Some(a@),
            None => derived_key(marker_seeds(voter@, proposal@), program@) is None,
        },
{
    key_of(find_address2(voter.bytes.as_slice(), proposal.bytes.as_slice(), program))
}

} // verus!
