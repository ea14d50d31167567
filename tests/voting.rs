use voting::{
    add_proposal, initialise_voting, proposal_address, select_winner, session_address, tally,
    vote, vote_marker_address, AddProposal, Address, CreateVoting, Ledger, Record, Tally, Vote,
    Voter, VotingError, MAX_PROPOSAL_BYTES,
};

const T: i64 = 1_700_000_000;

fn key(n: u8) -> Address {
    Address::new([n; 32])
}

fn program() -> Address {
    key(200)
}

fn chair() -> Address {
    key(1)
}

/// A ledger with one session (deadline T + 100) holding the given proposals.
fn open_session(texts: &[&str]) -> (Ledger, Address) {
    let mut ledger = Ledger::new(program());
    let ctx = CreateVoting { chairperson: chair() };
    assert_eq!(initialise_voting(&mut ledger, &ctx, "poll", T + 100), Ok(()));
    let session = session_address(&program(), "poll", &chair()).unwrap();
    for t in texts {
        let r = add_proposal(&mut ledger, &AddProposal { voting: session }, t.to_string());
        assert_eq!(r, Ok(()));
    }
    (ledger, session)
}

fn slot(session: &Address, i: u32) -> Address {
    proposal_address(&program(), session, i).unwrap()
}

fn ballot(session: &Address, proposal: &Address, voter: u8) -> Vote {
    Vote { voting: *session, proposal: *proposal, voter: key(voter), voter_struct: None }
}

fn cast(ledger: &mut Ledger, session: &Address, idx: u32, first_voter: u8, n: u8) {
    let p = slot(session, idx);
    for v in 0..n {
        assert_eq!(vote(ledger, &ballot(session, &p, first_voter + v), T), Ok(()));
    }
}

fn slots(session: &Address, n: u32) -> Vec<Address> {
    (0..n).map(|i| slot(session, i)).collect()
}

#[test]
fn scenario_a_highest_count_wins() {
    let (mut ledger, session) = open_session(&["A", "B"]);
    cast(&mut ledger, &session, 0, 10, 3);
    cast(&mut ledger, &session, 1, 20, 5);
    let ctx = Tally { caller: key(99), voting: session };
    assert_eq!(tally(&mut ledger, &ctx, &slots(&session, 2), T + 101), Ok(()));
    let s = ledger.session(&session).unwrap();
    assert!(s.winner_selected);
    assert_eq!(s.winner_idx, 1);
    assert_eq!(ledger.proposal(&slot(&session, 0)).unwrap().vote_counter, 3);
    assert_eq!(ledger.proposal(&slot(&session, 1)).unwrap().vote_counter, 5);
}

#[test]
fn scenario_b_tie_goes_to_lowest_index() {
    let (mut ledger, session) = open_session(&["A", "B"]);
    cast(&mut ledger, &session, 0, 10, 4);
    cast(&mut ledger, &session, 1, 20, 4);
    let ctx = Tally { caller: key(99), voting: session };
    assert_eq!(tally(&mut ledger, &ctx, &slots(&session, 2), T + 101), Ok(()));
    assert_eq!(ledger.session(&session).unwrap().winner_idx, 0);
}

#[test]
fn scenario_c_vote_after_deadline() {
    let (mut ledger, session) = open_session(&["A", "B"]);
    let p = slot(&session, 0);
    assert_eq!(vote(&mut ledger, &ballot(&session, &p, 10), T + 100), Err(VotingError::DeadlinePassed));
    assert_eq!(vote(&mut ledger, &ballot(&session, &p, 10), T + 500), Err(VotingError::DeadlinePassed));
    assert_eq!(ledger.proposal(&p).unwrap().vote_counter, 0);
}

#[test]
fn scenario_d_chairperson_overrides_deadline() {
    let (mut ledger, session) = open_session(&["A", "B"]);
    cast(&mut ledger, &session, 1, 10, 1);
    let outsider = Tally { caller: key(99), voting: session };
    assert_eq!(tally(&mut ledger, &outsider, &slots(&session, 2), T), Err(VotingError::Unauthorized));
    assert!(!ledger.session(&session).unwrap().winner_selected);
    let chairperson = Tally { caller: chair(), voting: session };
    assert_eq!(tally(&mut ledger, &chairperson, &slots(&session, 2), T), Ok(()));
    assert_eq!(ledger.session(&session).unwrap().winner_idx, 1);
}

#[test]
fn scenario_e_forged_record() {
    let (mut ledger, session) = open_session(&["A", "B"]);
    let before = ledger.session(&session).unwrap();
    let forged = vec![slot(&session, 0), key(77)];
    let ctx = Tally { caller: chair(), voting: session };
    assert_eq!(tally(&mut ledger, &ctx, &forged, T + 101), Err(VotingError::AddressMismatch));
    let swapped = vec![slot(&session, 1), slot(&session, 0)];
    assert_eq!(tally(&mut ledger, &ctx, &swapped, T + 101), Err(VotingError::AddressMismatch));
    let after = ledger.session(&session).unwrap();
    assert!(!after.winner_selected);
    assert_eq!(after.winner_idx, before.winner_idx);
    assert_eq!(after.proposal_count, before.proposal_count);
}

#[test]
fn proposal_count_grows_by_one_per_registration() {
    let (mut ledger, session) = open_session(&[]);
    for i in 0..3u32 {
        assert_eq!(ledger.session(&session).unwrap().proposal_count, i);
        let r = add_proposal(&mut ledger, &AddProposal { voting: session }, format!("p{}", i));
        assert_eq!(r, Ok(()));
        let p = ledger.proposal(&slot(&session, i)).unwrap();
        assert_eq!(p.index, i);
        assert_eq!(p.proposal, format!("p{}", i));
        assert_eq!(p.vote_counter, 0);
    }
    let long = "x".repeat(MAX_PROPOSAL_BYTES + 1);
    let r = add_proposal(&mut ledger, &AddProposal { voting: session }, long);
    assert_eq!(r, Err(VotingError::CapacityExceeded));
    cast(&mut ledger, &session, 0, 10, 2);
    assert_eq!(ledger.session(&session).unwrap().proposal_count, 3);
}

#[test]
fn proposal_text_at_capacity_is_accepted() {
    let (mut ledger, session) = open_session(&[]);
    let full = "y".repeat(MAX_PROPOSAL_BYTES);
    assert_eq!(add_proposal(&mut ledger, &AddProposal { voting: session }, full), Ok(()));
    assert_eq!(ledger.session(&session).unwrap().proposal_count, 1);
}

#[test]
fn add_proposal_to_unknown_session() {
    let mut ledger = Ledger::new(program());
    let r = add_proposal(&mut ledger, &AddProposal { voting: key(5) }, "A".to_string());
    assert_eq!(r, Err(VotingError::NotFound));
}

#[test]
fn session_holds_at_most_256_proposals() {
    let (mut ledger, session) = open_session(&[]);
    for i in 0..256u32 {
        let r = add_proposal(&mut ledger, &AddProposal { voting: session }, format!("{}", i));
        assert_eq!(r, Ok(()));
    }
    let r = add_proposal(&mut ledger, &AddProposal { voting: session }, "late".to_string());
    assert_eq!(r, Err(VotingError::DuplicateCreation));
    assert_eq!(ledger.session(&session).unwrap().proposal_count, 256);
}

#[test]
fn second_vote_is_a_duplicate() {
    let (mut ledger, session) = open_session(&["A", "B"]);
    let p = slot(&session, 0);
    assert_eq!(vote(&mut ledger, &ballot(&session, &p, 10), T), Ok(()));
    assert_eq!(vote(&mut ledger, &ballot(&session, &p, 10), T), Err(VotingError::DuplicateCreation));
    assert_eq!(vote(&mut ledger, &ballot(&session, &p, 10), T + 1), Err(VotingError::DuplicateCreation));
    assert_eq!(ledger.proposal(&p).unwrap().vote_counter, 1);
    // The same voter may still vote on another proposal.
    let q = slot(&session, 1);
    assert_eq!(vote(&mut ledger, &ballot(&session, &q, 10), T), Ok(()));
    let marker = vote_marker_address(&program(), &key(10), &p).unwrap();
    assert!(matches!(ledger.record(&marker), Some(Record::Voted(_))));
}

#[test]
fn vote_checks_registration_and_records() {
    let (mut ledger, session) = open_session(&["A"]);
    let p = slot(&session, 0);
    let mut b = ballot(&session, &p, 10);
    b.voter_struct = Some(Voter { key: key(11), weight: 1, propose_answers: false });
    assert_eq!(vote(&mut ledger, &b, T), Err(VotingError::Unauthorized));
    b.voter_struct = Some(Voter { key: key(10), weight: 3, propose_answers: false });
    assert_eq!(vote(&mut ledger, &b, T), Ok(()));
    // Weight does not scale the vote.
    assert_eq!(ledger.proposal(&p).unwrap().vote_counter, 1);
    let missing = ballot(&session, &key(55), 12);
    assert_eq!(vote(&mut ledger, &missing, T), Err(VotingError::NotFound));
    let no_session = ballot(&key(56), &p, 12);
    assert_eq!(vote(&mut ledger, &no_session, T), Err(VotingError::NotFound));
}

#[test]
fn vote_after_decision_is_refused() {
    let (mut ledger, session) = open_session(&["A"]);
    let ctx = Tally { caller: chair(), voting: session };
    assert_eq!(tally(&mut ledger, &ctx, &slots(&session, 1), T), Ok(()));
    let p = slot(&session, 0);
    assert_eq!(vote(&mut ledger, &ballot(&session, &p, 10), T), Err(VotingError::Unauthorized));
}

#[test]
fn second_tally_is_unauthorized() {
    let (mut ledger, session) = open_session(&["A", "B"]);
    cast(&mut ledger, &session, 1, 10, 2);
    let ctx = Tally { caller: chair(), voting: session };
    assert_eq!(tally(&mut ledger, &ctx, &slots(&session, 2), T + 101), Ok(()));
    assert_eq!(tally(&mut ledger, &ctx, &slots(&session, 2), T + 101), Err(VotingError::Unauthorized));
    let other = Tally { caller: key(99), voting: session };
    assert_eq!(tally(&mut ledger, &other, &slots(&session, 2), T + 900), Err(VotingError::Unauthorized));
    assert_eq!(ledger.session(&session).unwrap().winner_idx, 1);
}

#[test]
fn tally_count_mismatch() {
    let (mut ledger, session) = open_session(&["A", "B"]);
    let ctx = Tally { caller: chair(), voting: session };
    assert_eq!(tally(&mut ledger, &ctx, &slots(&session, 1), T), Err(VotingError::CountMismatch));
    assert_eq!(tally(&mut ledger, &ctx, &slots(&session, 3), T), Err(VotingError::CountMismatch));
    assert!(!ledger.session(&session).unwrap().winner_selected);
}

#[test]
fn tally_of_unknown_session() {
    let mut ledger = Ledger::new(program());
    let ctx = Tally { caller: chair(), voting: key(3) };
    assert_eq!(tally(&mut ledger, &ctx, &vec![], T), Err(VotingError::NotFound));
}

#[test]
fn tally_without_proposals_picks_index_zero() {
    let (mut ledger, session) = open_session(&[]);
    let ctx = Tally { caller: chair(), voting: session };
    assert_eq!(tally(&mut ledger, &ctx, &vec![], T), Ok(()));
    let s = ledger.session(&session).unwrap();
    assert!(s.winner_selected);
    assert_eq!(s.winner_idx, 0);
}

#[test]
fn tally_at_deadline_needs_chairperson() {
    let (mut ledger, session) = open_session(&["A"]);
    let ctx = Tally { caller: key(99), voting: session };
    assert_eq!(tally(&mut ledger, &ctx, &slots(&session, 1), T + 100), Err(VotingError::Unauthorized));
    assert_eq!(tally(&mut ledger, &ctx, &slots(&session, 1), T + 101), Ok(()));
}

#[test]
fn reinitialising_a_session_fails() {
    let (mut ledger, session) = open_session(&["A"]);
    let ctx = CreateVoting { chairperson: chair() };
    assert_eq!(initialise_voting(&mut ledger, &ctx, "poll", T + 5), Err(VotingError::DuplicateCreation));
    let s = ledger.session(&session).unwrap();
    assert_eq!(s.deadline, T + 100);
    assert_eq!(s.proposal_count, 1);
    assert_eq!(s.chairperson, chair());
    // Another seed or another chairperson opens another session.
    assert_eq!(initialise_voting(&mut ledger, &ctx, "poll2", T + 5), Ok(()));
    let other = CreateVoting { chairperson: key(2) };
    assert_eq!(initialise_voting(&mut ledger, &other, "poll", T + 5), Ok(()));
}

#[test]
fn overlong_seed_is_rejected() {
    let mut ledger = Ledger::new(program());
    let ctx = CreateVoting { chairperson: chair() };
    let seed = "s".repeat(33);
    assert_eq!(initialise_voting(&mut ledger, &ctx, &seed, T), Err(VotingError::InvalidSeeds));
    assert_eq!(session_address(&program(), &seed, &chair()), None);
}

#[test]
fn derived_addresses_are_stable_and_distinct() {
    let s1 = session_address(&program(), "poll", &chair()).unwrap();
    let s2 = session_address(&program(), "poll", &chair()).unwrap();
    assert_eq!(s1, s2);
    assert_ne!(s1, chair());
    assert_ne!(s1, program());
    assert_ne!(s1, session_address(&program(), "other", &chair()).unwrap());
    assert_ne!(s1, session_address(&key(201), "poll", &chair()).unwrap());
    let p0 = slot(&s1, 0);
    assert_ne!(p0, s1);
    assert_ne!(p0, slot(&s1, 1));
    assert_eq!(p0, slot(&s1, 256));
    let m = vote_marker_address(&program(), &key(10), &p0).unwrap();
    assert_ne!(m, vote_marker_address(&program(), &key(11), &p0).unwrap());
    assert_ne!(m, key(10));
}

#[test]
fn winner_selection_lowest_index_among_maxima() {
    assert_eq!(select_winner(&vec![3, 5]), 1);
    assert_eq!(select_winner(&vec![4, 4]), 0);
    assert_eq!(select_winner(&vec![1, 7, 2, 7, 0]), 1);
    assert_eq!(select_winner(&vec![0, 0, 0]), 0);
    assert_eq!(select_winner(&vec![]), 0);
    assert_eq!(select_winner(&vec![0, 0, 9]), 2);
    assert_eq!(select_winner(&vec![u32::MAX, u32::MAX]), 0);
}

#[test]
fn winner_selection_is_deterministic() {
    let counts = vec![2, 9, 4, 9, 9, 1];
    let first = select_winner(&counts);
    for _ in 0..5 {
        assert_eq!(select_winner(&counts), first);
    }
    assert_eq!(first, 1);
}
