//! A voting session state machine: sessions, proposals and single-use vote
//! markers kept at derived addresses, and a deterministic tally.

pub mod address;
pub mod laws;
pub mod ledger;
pub mod records;
pub mod store;
pub mod winner;

pub use address::{proposal_address, session_address, vote_marker_address, Address};
pub use ledger::{add_proposal, initialise_voting, tally, vote, Ledger};
pub use records::{
    AddProposal, CreateVoting, Proposal, Record, Tally, Vote, Voted, Voter, Voting, VotingError,
    MAX_PROPOSALS, MAX_PROPOSAL_BYTES,
};
pub use winner::select_winner;
