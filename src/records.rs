//! The records kept at derived addresses, the operation contexts and the
//! error kinds.

use vstd::prelude::*;
use crate::address::Address;

verus! {

/// Largest proposal text, in bytes: a proposal record has room for 180
/// bytes (8 for its tag, 4 for the text length, 4 for the index, 4 for the
/// counter).
pub const MAX_PROPOSAL_BYTES: usize = 160;

/// Proposal slots are addressed by a one-byte seed, so a session holds at
/// most this many proposals.
pub const MAX_PROPOSALS: u32 = 256;

/// A voting session.
#[derive(Clone, Copy, Debug)]
pub struct Voting {
    pub chairperson: Address,
    pub proposal_count: u32,
    pub winner_idx: u8,
    pub winner_selected: bool,
    pub deadline: i64,
}

/// A registered voter.
#[derive(Clone, Copy, Debug)]
pub struct Voter {
    pub key: Address,
    pub weight: u8,
    pub propose_answers: bool,
}

/// A vote marker: its existence at an address is the recorded fact.
#[derive(Clone, Copy, Debug)]
pub struct Voted {}

/// A proposal of a session.
#[derive(Clone, Debug)]
pub struct Proposal {
    pub proposal: String,
    pub index: u32,
    pub vote_counter: u32,
}

/// What an address of the record store can hold.
#[derive(Clone, Debug)]
pub enum Record {
    Voting(Voting),
    Proposal(Proposal),
    Voted(Voted),
}

#[derive(Clone, Copy, Debug, PartialEq, Eq, Structural)]
pub enum VotingError {
    /// The address already holds a record.
    DuplicateCreation,
    /// The referenced record does not exist (or is not of the expected kind).
    NotFound,
    /// The caller fails the chairperson / deadline / not-yet-decided gate.
    Unauthorized,
    /// The voting window is closed.
    DeadlinePassed,
    /// The number of tally records differs from the proposal count.
    CountMismatch,
    /// A tally record is not at the address derived for its position.
    AddressMismatch,
    /// A text or counter exceeds its fixed storage bounds.
    CapacityExceeded,
    /// No address can be derived from the seeds.
    InvalidSeeds,
}

/// Opening of a session, signed by its chairperson.
#[derive(Clone, Copy, Debug)]
pub struct CreateVoting {
    pub chairperson: Address,
}

/// Registration of a proposal in a session.
#[derive(Clone, Copy, Debug)]
pub struct AddProposal {
    pub voting: Address,
}

/// A vote of `voter` on `proposal`; `voter_struct` is the voter's registration
/// where a voter registry is in use.
#[derive(Clone, Copy, Debug)]
pub struct Vote {
    pub voting: Address,
    pub proposal: Address,
    pub voter: Address,
    pub voter_struct: Option<Voter>,
}

/// A tally of session `voting` requested by `caller`.
#[derive(Clone, Copy, Debug)]
pub struct Tally {
    pub caller: Address,
    pub voting: Address,
}

} // verus!
