//! The voting ledger: sessions, proposals and vote markers in one record
//! store, and the four operations that change it.

use vstd::prelude::*;
use vstd::string::StringSliceAdditionalSpecFns;
use crate::address::{
    derived_key, marker_seeds, proposal_address, proposal_seeds, session_address, session_seeds,
    vote_marker_address, Address,
};
use crate::records::{
    AddProposal, CreateVoting, Proposal, Record, Tally, Vote, Voted, Voting, VotingError,
    MAX_PROPOSALS, MAX_PROPOSAL_BYTES,
};
use crate::store::RecordStore;
use crate::winner::{select_winner, winner_of};

verus! {

/// The session stored at `k`, if `k` holds one.
pub open spec fn session_of(m: Map<Seq<u8>, Record>, k: Seq<u8>) -> Option<Voting> {
    if m.contains_key(k) && m[k] is Voting {
        Some(m[k]->Voting_0)
    } else {
        None
    }
}

/// The proposal stored at `k`, if `k` holds one.
pub open spec fn proposal_of(m: Map<Seq<u8>, Record>, k: Seq<u8>) -> Option<Proposal> {
    if m.contains_key(k) && m[k] is Proposal {
        Some(m[k]->Proposal_0)
    } else {
        None
    }
}

/// Every session holds no more proposals than it has slots for.
pub open spec fn counts_bounded(m: Map<Seq<u8>, Record>) -> bool {
    forall|k: Seq<u8>| #[trigger] session_of(m, k) is Some
        ==> session_of(m, k)->Some_0.proposal_count <= MAX_PROPOSALS
}

/// Length of a text in UTF-8 bytes.
pub open spec fn text_bytes(text: String) -> nat {
    vstd::utf8::encode_utf8(text@).len()
}

/// What opening a session does to the record store.
pub open spec fn initialise_outcome(
    m: Map<Seq<u8>, Record>,
    program: Seq<u8>,
    chairperson: Address,
    seed: Seq<u8>,
    deadline: i64,
) -> Result<Map<Seq<u8>, Record>, VotingError> {
    match derived_key(session_seeds(seed, chairperson@), program) {
        None => Err(VotingError::InvalidSeeds),
        Some(k) => if m.contains_key(k) {
            Err(VotingError::DuplicateCreation)
        } else {
            Ok(
                m.insert(
                    k,
                    Record::Voting(
                        Voting {
                            chairperson,
                            proposal_count: 0,
                            winner_idx: 0,
                            winner_selected: false,
                            deadline,
                        },
                    ),
                ),
            )
        },
    }
}

/// What registering a proposal does to the record store.
pub open spec fn add_proposal_outcome(
    m: Map<Seq<u8>, Record>,
    program: Seq<u8>,
    voting: Seq<u8>,
    text: String,
) -> Result<Map<Seq<u8>, Record>, VotingError> {
    match session_of(m, voting) {
        None => Err(VotingError::NotFound),
        Some(v) => if text_bytes(text) > MAX_PROPOSAL_BYTES {
            Err(VotingError::CapacityExceeded)
        } else if v.proposal_count >= MAX_PROPOSALS {
            Err(VotingError::DuplicateCreation)
        } else {
            match derived_key(proposal_seeds(voting, v.proposal_count as int), program) {
                None => Err(VotingError::InvalidSeeds),
                Some(k) => if m.contains_key(k) {
                    Err(VotingError::DuplicateCreation)
                } else {
                    Ok(
                        m.insert(
                            k,
                            Record::Proposal(
                                Proposal { proposal: text, index: v.proposal_count, vote_counter: 0 },
                            ),
                        ).insert(
                            voting,
                            Record::Voting(
                                Voting { proposal_count: (v.proposal_count + 1) as u32, ..v },
                            ),
                        ),
                    )
                },
            }
        },
    }
}

/// Whether a registration record admits `voter`.
pub open spec fn voter_admitted(ctx: Vote) -> bool {
    match ctx.voter_struct {
        Some(reg) => reg.key@ == ctx.voter@,
        None => true,
    }
}

/// What a vote does to the record store at time `now`.
pub open spec fn vote_outcome(
    m: Map<Seq<u8>, Record>,
    program: Seq<u8>,
    ctx: Vote,
    now: i64,
) -> Result<Map<Seq<u8>, Record>, VotingError> {
    match (session_of(m, ctx.voting@), proposal_of(m, ctx.proposal@)) {
        (Some(v), Some(p)) => if now >= v.deadline {
            Err(VotingError::DeadlinePassed)
        } else if v.winner_selected || !voter_admitted(ctx) {
            Err(VotingError::Unauthorized)
        } else {
            match derived_key(marker_seeds(ctx.voter@, ctx.proposal@), program) {
                None => Err(VotingError::InvalidSeeds),
                Some(k) => if m.contains_key(k) {
                    Err(VotingError::DuplicateCreation)
                } else if p.vote_counter == u32::MAX {
                    Err(VotingError::CapacityExceeded)
                } else {
                    Ok(
                        m.insert(k, Record::Voted(Voted {})).insert(
                            ctx.proposal@,
                            Record::Proposal(
                                Proposal { vote_counter: (p.vote_counter + 1) as u32, ..p },
                            ),
                        ),
                    )
                },
            }
        },
        _ => Err(VotingError::NotFound),
    }
}

/// The tally gate: the chairperson, or anyone once the deadline has passed,
/// on a session without a winner.
pub open spec fn tally_allowed(v: Voting, caller: Address, now: i64) -> bool {
    (caller@ == v.chairperson@ || now > v.deadline) && !v.winner_selected
}

/// Each supplied address is the one derived for its position.
pub open spec fn slots_match(program: Seq<u8>, voting: Seq<u8>, keys: Seq<Address>) -> bool {
    forall|i: int|
        0 <= i < keys.len() ==> #[trigger] derived_key(proposal_seeds(voting, i), program) == Some(
            keys[i]@,
        )
}

/// Each supplied address holds a proposal.
pub open spec fn all_proposals(m: Map<Seq<u8>, Record>, keys: Seq<Address>) -> bool {
    forall|i: int| 0 <= i < keys.len() ==> #[trigger] proposal_of(m, keys[i]@) is Some
}

/// The vote counters of the proposals at `keys`, in order.
pub open spec fn counters(m: Map<Seq<u8>, Record>, keys: Seq<Address>) -> Seq<u32> {
    Seq::new(keys.len(), |i: int| m[keys[i]@]->Proposal_0.vote_counter)
}

/// What a tally does to the record store at time `now`.
pub open spec fn tally_outcome(
    m: Map<Seq<u8>, Record>,
    program: Seq<u8>,
    ctx: Tally,
    keys: Seq<Address>,
    now: i64,
) -> Result<Map<Seq<u8>, Record>, VotingError> {
    match session_of(m, ctx.voting@) {
        None => Err(VotingError::NotFound),
        Some(v) => if !tally_allowed(v, ctx.caller, now) {
            Err(VotingError::Unauthorized)
        } else if keys.len() != v.proposal_count {
            Err(VotingError::CountMismatch)
        } else if !slots_match(program, ctx.voting@, keys) {
            Err(VotingError::AddressMismatch)
        } else if !all_proposals(m, keys) {
            Err(VotingError::NotFound)
        } else {
            Ok(
                m.insert(
                    ctx.voting@,
                    Record::Voting(
                        Voting {
                            winner_idx: winner_of(counters(m, keys)) as u8,
                            winner_selected: true,
                            ..v
                        },
                    ),
                ),
            )
        },
    }
}

/// An operation returned `r` and left `after` where `before` was, as
/// `outcome` prescribes: on failure nothing changes.
pub open spec fn follows(
    outcome: Result<Map<Seq<u8>, Record>, VotingError>,
    r: Result<(), VotingError>,
    before: Map<Seq<u8>, Record>,
    after: Map<Seq<u8>, Record>,
) -> bool {
    match outcome {
        Ok(m) => r is Ok && after == m,
        Err(e) => r == Err::<(), VotingError>(e) && after == before,
    }
}

pub struct Ledger {
    program_id: Address,
    store: RecordStore,
}

impl Ledger {
    /// Id of the program whose derived addresses this ledger uses.
    pub closed spec fn program(&self) -> Seq<u8> {
        self.program_id@
    }

    /// The records, by address.
    pub closed spec fn records(&self) -> Map<Seq<u8>, Record> {
        self.store@
    }

    pub open spec fn wf(&self) -> bool {
        counts_bounded(self.records())
    }

    /// An empty ledger for `program_id`.
    pub fn new(program_id: Address) -> (r: Ledger)
        ensures
            r.program() == program_id@,
            r.records() == Map::<Seq<u8>, Record>::empty(),
            r.wf(),
    {
        Ledger { program_id, store: RecordStore::new() }
    }

    pub fn program_id(&self) -> (r: Address)
        ensures
            r@ == self.program(),
    {
        self.program_id
    }

    /// The record at `key`, if any.
    pub fn record(&self, key: &Address) -> (r: Option<&Record>)
        ensures
            match r {
                Some(rec) => self.records().contains_key(key@) && self.records()[key@] == *rec,
                None => !self.records().contains_key(key@),
            },
    {
        self.store.get(key)
    }

    /// The session at `key`, if `key` holds one.
    pub fn session(&self, key: &Address) -> (r: Option<Voting>)
        ensures
            r == session_of(self.records(), key@),
    {
        match self.store.get(key) {
            Some(Record::Voting(v)) => Some(*v),
            _ => None,
        }
    }

    /// The proposal at `key`, if `key` holds one.
    pub fn proposal(&self, key: &Address) -> (r: Option<&Proposal>)
        ensures
            match r {
                Some(p) => proposal_of(self.records(), key@) == Some(*p),
                None => proposal_of(self.records(), key@) is None,
            },
    {
        match self.store.get(key) {
            Some(Record::Proposal(p)) => Some(p),
            _ => None,
        }
    }
}

/// Opens a session at the address derived from `seed` and the
/// chairperson's key.
pub fn initialise_voting(ledger: &mut Ledger, ctx: &CreateVoting, seed: &str, deadline: i64) -> (r:
    Result<(), VotingError>)
    requires
        old(ledger).wf(),
    ensures
        final(ledger).wf(),
        final(ledger).program() == old(ledger).program(),
        follows(
            initialise_outcome(
                old(ledger).records(),
                old(ledger).program(),
                ctx.chairperson,
                seed.spec_bytes(),
                deadline,
            ),
            r,
            old(ledger).records(),
            final(ledger).records(),
        ),
{
    let key = match session_address(&ledger.program_id, seed, &ctx.chairperson) {
        Some(k) => k,
        None => return Err(VotingError::InvalidSeeds),
    };
    if ledger.store.contains(&key) {
        return Err(VotingError::DuplicateCreation);
    }
    let session = Voting {
        chairperson: ctx.chairperson,
        proposal_count: 0,
        winner_idx: 0,
        winner_selected: false,
        deadline,
    };
    ledger.store.put(key, Record::Voting(session));
    proof {
        let m = old(ledger).records();
        assert forall|k: Seq<u8>| #[trigger] session_of(ledger.records(), k) is Some implies
            session_of(ledger.records(), k)->Some_0.proposal_count <= MAX_PROPOSALS by {
            if k != key@ {
                assert(session_of(m, k) is Some);
            }
        }
    }
    Ok(())
}

/// Registers proposal `text` in the next slot of session `ctx.voting`.
pub fn add_proposal(ledger: &mut Ledger, ctx: &AddProposal, text: String) -> (r: Result<(), VotingError>)
    requires
        old(ledger).wf(),
    ensures
        final(ledger).wf(),
        final(ledger).program() == old(ledger).program(),
        follows(
            add_proposal_outcome(old(ledger).records(), old(ledger).program(), ctx.voting@, text),
            r,
            old(ledger).records(),
            final(ledger).records(),
        ),
{
    let ghost m = ledger.records();
    let session = match ledger.session(&ctx.voting) {
        Some(v) => v,
        None => return Err(VotingError::NotFound),
    };
    let text_str = text.as_str();
    let text_len = text_str.as_bytes().len();
    proof {
        assert(text_str@ == text@);
    }
    if text_len > MAX_PROPOSAL_BYTES {
        return Err(VotingError::CapacityExceeded);
    }
    // Slot seeds are one byte wide: a further proposal would land on
    // slot 0 again.
    if session.proposal_count >= MAX_PROPOSALS {
        return Err(VotingError::DuplicateCreation);
    }
    let key = match proposal_address(&ledger.program_id, &ctx.voting, session.proposal_count) {
        Some(k) => k,
        None => return Err(VotingError::InvalidSeeds),
    };
    if ledger.store.contains(&key) {
        return Err(VotingError::DuplicateCreation);
    }
    let index = session.proposal_count;
    ledger.store.put(key, Record::Proposal(Proposal { proposal: text, index, vote_counter: 0 }));
    let next = Voting { proposal_count: index + 1, ..session };
    ledger.store.put(ctx.voting, Record::Voting(next));
    proof {
        assert forall|k: Seq<u8>| #[trigger] session_of(ledger.records(), k) is Some implies
            session_of(ledger.records(), k)->Some_0.proposal_count <= MAX_PROPOSALS by {
            if k != key@ && k != ctx.voting@ {
                assert(session_of(m, k) is Some);
            }
        }
    }
    Ok(())
}

/// Casts the vote of `ctx.voter` on `ctx.proposal` at time `now`.
pub fn vote(ledger: &mut Ledger, ctx: &Vote, now: i64) -> (r: Result<(), VotingError>)
    requires
        old(ledger).wf(),
    ensures
        final(ledger).wf(),
        final(ledger).program() == old(ledger).program(),
        follows(
            vote_outcome(old(ledger).records(), old(ledger).program(), *ctx, now),
            r,
            old(ledger).records(),
            final(ledger).records(),
        ),
{
    let ghost m = ledger.records();
    let session = match ledger.session(&ctx.voting) {
        Some(v) => v,
        None => return Err(VotingError::NotFound),
    };
    let (text, index, counter) = match ledger.proposal(&ctx.proposal) {
        Some(p) => (p.proposal.clone(), p.index, p.vote_counter),
        None => return Err(VotingError::NotFound),
    };
    if now >= session.deadline {
        return Err(VotingError::DeadlinePassed);
    }
    if session.winner_selected {
        return Err(VotingError::Unauthorized);
    }
    match &ctx.voter_struct {
        Some(reg) => {
            if !reg.key.same_as(&ctx.voter) {
                return Err(VotingError::Unauthorized);
            }
        },
        None => {},
    }
    let key = match vote_marker_address(&ledger.program_id, &ctx.voter, &ctx.proposal) {
        Some(k) => k,
        None => return Err(VotingError::InvalidSeeds),
    };
    if ledger.store.contains(&key) {
        return Err(VotingError::DuplicateCreation);
    }
    if counter == u32::MAX {
        return Err(VotingError::CapacityExceeded);
    }
    ledger.store.put(key, Record::Voted(Voted {}));
    let counted = Proposal { proposal: text, index, vote_counter: counter + 1 };
    ledger.store.put(ctx.proposal, Record::Proposal(counted));
    proof {
        assert forall|k: Seq<u8>| #[trigger] session_of(ledger.records(), k) is Some implies
            session_of(ledger.records(), k)->Some_0.proposal_count <= MAX_PROPOSALS by {
            assert(session_of(m, k) is Some);
        }
    }
    Ok(())
}
/// Selects the winner of session `ctx.voting` from the proposals at
/// `remaining_accounts`, one per slot in slot order, at time `now`.
pub fn tally(ledger: &mut Ledger, ctx: &Tally, remaining_accounts: &Vec<Address>, now: i64) -> (r: Result<
    (),
    VotingError,
>)
    requires
        old(ledger).wf(),
    ensures
        final(ledger).wf(),
        final(ledger).program() == old(ledger).program(),
        follows(
            tally_outcome(
                old(ledger).records(),
                old(ledger).program(),
                *ctx,
                remaining_accounts@,
                now,
            ),
            r,
            old(ledger).records(),
            final(ledger).records(),
        ),
{
    let ghost m = ledger.records();
    let ghost keys = remaining_accounts@;
    assert(m == old(ledger).records());
    let session = match ledger.session(&ctx.voting) {
        Some(v) => v,
        None => return Err(VotingError::NotFound),
    };
    let allowed = (ctx.caller.same_as(&session.chairperson) || now > session.deadline)
        && !session.winner_selected;
    if !allowed {
        return Err(VotingError::Unauthorized);
    }
    let n = remaining_accounts.len();
    if n != session.proposal_count as usize {
        return Err(VotingError::CountMismatch);
    }
    assert(session_of(m, ctx.voting@) is Some);
    // Every supplied address must be the one derived for its slot.
    let mut i: usize = 0;
    while i < n
        invariant
            i <= n,
            n == keys.len(),
            n <= MAX_PROPOSALS,
            keys == remaining_accounts@,
            ledger.program() == old(ledger).program(),
            ledger.records() == m,
            m == old(ledger).records(),
            counts_bounded(m),
            session_of(m, ctx.voting@) == Some(session),
            tally_allowed(session, ctx.caller, now),
            n == session.proposal_count,
            forall|j: int|
                0 <= j < i ==> #[trigger] derived_key(proposal_seeds(ctx.voting@, j), ledger.program())
                    == Some(keys[j]@),
        decreases n - i,
    {
        let matched = match proposal_address(&ledger.program_id, &ctx.voting, i as u32) {
            Some(expected) => expected.same_as(&remaining_accounts[i]),
            None => false,
        };
        if !matched {
            assert(!slots_match(ledger.program(), ctx.voting@, keys)) by {
                assert(derived_key(proposal_seeds(ctx.voting@, i as int), ledger.program())
                    != Some(keys[i as int]@));
            }
            return Err(VotingError::AddressMismatch);
        }
        i = i + 1;
    }
    // Every slot must hold a proposal; its counter enters the count.
    let mut counts: Vec<u32> = Vec::new();
    let mut i: usize = 0;
    while i < n
        invariant
            i <= n,
            n == keys.len(),
            keys == remaining_accounts@,
            ledger.program() == old(ledger).program(),
            ledger.records() == m,
            m == old(ledger).records(),
            counts_bounded(m),
            session_of(m, ctx.voting@) == Some(session),
            tally_allowed(session, ctx.caller, now),
            n == session.proposal_count,
            slots_match(ledger.program(), ctx.voting@, keys),
            counts@.len() == i,
            forall|j: int| 0 <= j < i ==> #[trigger] proposal_of(m, keys[j]@) is Some,
            forall|j: int|
                0 <= j < i ==> counts@[j] == #[trigger] m[keys[j]@]->Proposal_0.vote_counter,
        decreases n - i,
    {
        match ledger.proposal(&remaining_accounts[i]) {
            Some(p) => counts.push(p.vote_counter),
            None => {
                assert(!all_proposals(m, keys)) by {
                    assert(proposal_of(m, keys[i as int]@) is None);
                }
                return Err(VotingError::NotFound);
            },
        }
        i = i + 1;
    }
    assert(counts@ =~= counters(m, keys));
    let w = select_winner(&counts);
    let decided = Voting { winner_idx: w as u8, winner_selected: true, ..session };
    ledger.store.put(ctx.voting, Record::Voting(decided));
    proof {
        assert forall|k: Seq<u8>| #[trigger] session_of(ledger.records(), k) is Some implies
            session_of(ledger.records(), k)->Some_0.proposal_count <= MAX_PROPOSALS by {
            if k != ctx.voting@ {
                assert(session_of(m, k) is Some);
            }
        }
    }
    Ok(())
}

} // verus!
