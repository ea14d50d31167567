//! Laws of the session lifecycle, stated over the outcome of each operation.

use vstd::prelude::*;
use crate::address::{derived_key, marker_seeds, proposal_seeds};
use crate::ledger::{
    add_proposal_outcome, counters, initialise_outcome, session_of, tally_allowed, tally_outcome,
    vote_outcome,
};
use crate::address::Address;
use crate::records::{Record, Tally, Vote, Voting, VotingError};
use crate::winner::{is_winner, lemma_winner_exists, winner_of};

verus! {

/// No record is ever removed.
pub open spec fn records_kept(m1: Map<Seq<u8>, Record>, m2: Map<Seq<u8>, Record>) -> bool {
    forall|k: Seq<u8>| #[trigger] m1.contains_key(k) ==> m2.contains_key(k)
}

/// Every session keeps its proposal count.
pub open spec fn counts_kept(m1: Map<Seq<u8>, Record>, m2: Map<Seq<u8>, Record>) -> bool {
    forall|k: Seq<u8>| #[trigger] session_of(m1, k) is Some
        ==> session_of(m2, k) is Some
            && session_of(m2, k)->Some_0.proposal_count == session_of(m1, k)->Some_0.proposal_count
}

/// A decided session stays decided, with the same winner.
pub open spec fn decisions_kept(m1: Map<Seq<u8>, Record>, m2: Map<Seq<u8>, Record>) -> bool {
    forall|k: Seq<u8>| #[trigger] session_of(m1, k) is Some && session_of(m1, k)->Some_0.winner_selected
        ==> session_of(m2, k) is Some
            && session_of(m2, k)->Some_0.winner_selected
            && session_of(m2, k)->Some_0.winner_idx == session_of(m1, k)->Some_0.winner_idx
}

/// A successful proposal registration raises that session's proposal count
/// by exactly one and leaves every other session as it was; records and
/// decisions are kept.
pub proof fn law_add_proposal_counts(m: Map<Seq<u8>, Record>, program: Seq<u8>, voting: Seq<u8>, text: String)
    requires
        add_proposal_outcome(m, program, voting, text) is Ok,
    ensures
        ({
            let m2 = add_proposal_outcome(m, program, voting, text)->Ok_0;
            &&& session_of(m2, voting) is Some
            &&& session_of(m2, voting)->Some_0.proposal_count == session_of(m, voting)->Some_0.proposal_count + 1
            &&& forall|k: Seq<u8>| k != voting ==> #[trigger] session_of(m2, k) == session_of(m, k)
            &&& records_kept(m, m2)
            &&& decisions_kept(m, m2)
        }),
{
    let m2 = add_proposal_outcome(m, program, voting, text)->Ok_0;
    let v = session_of(m, voting)->Some_0;
    let k = derived_key(proposal_seeds(voting, v.proposal_count as int), program)->Some_0;
    assert forall|j: Seq<u8>| j != voting implies #[trigger] session_of(m2, j) == session_of(m, j) by {
        if j == k {
            assert(!m.contains_key(k));
        }
    }
}

/// Opening a session, voting and tallying leave every proposal count as it
/// was; records and decisions are kept.
pub proof fn law_other_operations_keep_counts(
    m: Map<Seq<u8>, Record>,
    program: Seq<u8>,
    chairperson: Address,
    seed: Seq<u8>,
    deadline: i64,
    vote: Vote,
    tally: Tally,
    keys: Seq<Address>,
    now: i64,
)
    ensures
        initialise_outcome(m, program, chairperson, seed, deadline) is Ok ==> {
            let m2 = initialise_outcome(m, program, chairperson, seed, deadline)->Ok_0;
            counts_kept(m, m2) && records_kept(m, m2) && decisions_kept(m, m2)
        },
        vote_outcome(m, program, vote, now) is Ok ==> {
            let m2 = vote_outcome(m, program, vote, now)->Ok_0;
            counts_kept(m, m2) && records_kept(m, m2) && decisions_kept(m, m2)
        },
        tally_outcome(m, program, tally, keys, now) is Ok ==> {
            let m2 = tally_outcome(m, program, tally, keys, now)->Ok_0;
            counts_kept(m, m2) && records_kept(m, m2) && decisions_kept(m, m2)
        },
{
    if initialise_outcome(m, program, chairperson, seed, deadline) is Ok {
        let m2 = initialise_outcome(m, program, chairperson, seed, deadline)->Ok_0;
        let k = derived_key(seq![seed, chairperson@], program)->Some_0;
        assert forall|j: Seq<u8>| #[trigger] session_of(m, j) is Some implies session_of(m2, j)
            == session_of(m, j) by {
            assert(j != k);
        }
    }
    if vote_outcome(m, program, vote, now) is Ok {
        let m2 = vote_outcome(m, program, vote, now)->Ok_0;
        let k = derived_key(marker_seeds(vote.voter@, vote.proposal@), program)->Some_0;
        assert forall|j: Seq<u8>| #[trigger] session_of(m, j) is Some implies session_of(m2, j)
            == session_of(m, j) by {
            assert(j != k);
        }
    }
}

/// A vote that succeeded fails when it is made again, with
/// `DuplicateCreation`.
pub proof fn law_vote_once(m: Map<Seq<u8>, Record>, program: Seq<u8>, ctx: Vote, now: i64)
    requires
        vote_outcome(m, program, ctx, now) is Ok,
    ensures
        vote_outcome(vote_outcome(m, program, ctx, now)->Ok_0, program, ctx, now) == Err::<
            Map<Seq<u8>, Record>,
            VotingError,
        >(VotingError::DuplicateCreation),
{
    let k = derived_key(marker_seeds(ctx.voter@, ctx.proposal@), program)->Some_0;
    assert(ctx.voting@ != k);
}

/// While the marker of a voter on a proposal stands, no vote of that voter
/// on that proposal succeeds; since no operation removes a record, at most
/// one such vote ever succeeds.
pub proof fn law_marker_blocks_vote(m: Map<Seq<u8>, Record>, program: Seq<u8>, ctx: Vote, now: i64)
    requires
        derived_key(marker_seeds(ctx.voter@, ctx.proposal@), program) is Some,
        m.contains_key(derived_key(marker_seeds(ctx.voter@, ctx.proposal@), program)->Some_0),
    ensures
        vote_outcome(m, program, ctx, now) is Err,
{
}

/// A successful tally decides the session, with the winner of the supplied
/// proposals' counters: the lowest index among those with the most votes.
pub proof fn law_tally_decides(
    m: Map<Seq<u8>, Record>,
    program: Seq<u8>,
    ctx: Tally,
    keys: Seq<Address>,
    now: i64,
)
    requires
        tally_outcome(m, program, ctx, keys, now) is Ok,
    ensures
        ({
            let m2 = tally_outcome(m, program, ctx, keys, now)->Ok_0;
            let w = winner_of(counters(m, keys));
            &&& is_winner(counters(m, keys), w)
            &&& session_of(m2, ctx.voting@) == Some(
                Voting { winner_idx: w as u8, winner_selected: true, ..session_of(m, ctx.voting@)->Some_0 },
            )
        }),
{
    lemma_winner_exists(counters(m, keys));
}

/// A decided session refuses every tally with `Unauthorized`.
pub proof fn law_decided_refuses_tally(
    m: Map<Seq<u8>, Record>,
    program: Seq<u8>,
    ctx: Tally,
    keys: Seq<Address>,
    now: i64,
)
    requires
        session_of(m, ctx.voting@) is Some,
        session_of(m, ctx.voting@)->Some_0.winner_selected,
    ensures
        tally_outcome(m, program, ctx, keys, now) == Err::<Map<Seq<u8>, Record>, VotingError>(
            VotingError::Unauthorized,
        ),
{
}

/// After a successful tally every further tally of the session, by any
/// caller, with any records and at any time, fails with `Unauthorized`.
pub proof fn law_tally_once(
    m: Map<Seq<u8>, Record>,
    program: Seq<u8>,
    ctx: Tally,
    keys: Seq<Address>,
    now: i64,
    again: Tally,
    keys2: Seq<Address>,
    now2: i64,
)
    requires
        tally_outcome(m, program, ctx, keys, now) is Ok,
        again.voting@ == ctx.voting@,
    ensures
        tally_outcome(tally_outcome(m, program, ctx, keys, now)->Ok_0, program, again, keys2, now2)
            == Err::<Map<Seq<u8>, Record>, VotingError>(VotingError::Unauthorized),
{
}

/// A permitted tally whose record count differs from the session's proposal
/// count fails with `CountMismatch`.
pub proof fn law_count_mismatch(
    m: Map<Seq<u8>, Record>,
    program: Seq<u8>,
    ctx: Tally,
    keys: Seq<Address>,
    now: i64,
)
    requires
        session_of(m, ctx.voting@) is Some,
        tally_allowed(session_of(m, ctx.voting@)->Some_0, ctx.caller, now),
        keys.len() != session_of(m, ctx.voting@)->Some_0.proposal_count,
    ensures
        tally_outcome(m, program, ctx, keys, now) == Err::<Map<Seq<u8>, Record>, VotingError>(
            VotingError::CountMismatch,
        ),
{
}

/// A permitted tally with the right number of records, one of which is not
/// at the address derived for its position, fails with `AddressMismatch`.
pub proof fn law_address_mismatch(
    m: Map<Seq<u8>, Record>,
    program: Seq<u8>,
    ctx: Tally,
    keys: Seq<Address>,
    now: i64,
    i: int,
)
    requires
        session_of(m, ctx.voting@) is Some,
        tally_allowed(session_of(m, ctx.voting@)->Some_0, ctx.caller, now),
        keys.len() == session_of(m, ctx.voting@)->Some_0.proposal_count,
        0 <= i < keys.len(),
        derived_key(proposal_seeds(ctx.voting@, i), program) != Some(keys[i]@),
    ensures
        tally_outcome(m, program, ctx, keys, now) == Err::<Map<Seq<u8>, Record>, VotingError>(
            VotingError::AddressMismatch,
        ),
{
}

} // verus!
