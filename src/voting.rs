//! The three requests: create a poll, register a candidate, cast a vote.

use vstd::prelude::*;
use crate::address::{derive_address, derived_address, Identity, RecordKey};
use crate::ledger::{Account, AccountView, Ledger, LedgerConfig};
use crate::records::{fits, text_fits, Candidate, CandidateView, Poll, PollView, Record, RecordView, VoteRecord};

verus! {

/// Why a request was refused. A refused request changes nothing.
#[derive(Clone, Copy, Debug, PartialEq, Eq, Structural)]
pub enum VotingError {
    /// A text field holds more than 280 bytes.
    LengthViolation,
    /// The record that the request would create exists already.
    AlreadyExists,
    /// The caller did not sign the request.
    AuthenticationMissing,
    /// The record's seeds have no program-derived address.
    AddressDerivationFailure,
    /// A vote names a poll or a candidate that was never created.
    NotFound,
}

/// The caller of a request: its key, and whether it signed.
#[derive(Clone, Copy, Debug, PartialEq, Eq)]
pub struct Signer {
    pub key: Identity,
    pub is_signer: bool,
}

/// The context of a poll's creation: who asks and pays.
#[derive(Clone, Copy, Debug, PartialEq, Eq)]
pub struct InitializePoll {
    pub signer: Signer,
}

/// The context of a candidate's registration: who registers, and so owns
/// the candidate.
#[derive(Clone, Copy, Debug, PartialEq, Eq)]
pub struct InitializeCandidate {
    pub signer: Signer,
}

/// The context of a vote: who votes.
#[derive(Clone, Copy, Debug, PartialEq, Eq)]
pub struct Vote {
    pub signer: Signer,
}

/// What the ledger becomes when `signer` creates poll `poll_id`, or why the
/// request is refused.
pub open spec fn poll_outcome(
    state: Map<RecordKey, AccountView>,
    program_id: Identity,
    config: LedgerConfig,
    signer: Signer,
    poll_id: u64,
    description: Seq<char>,
    candidates: u64,
    start_time: u64,
    end_time: u64,
) -> Result<Map<RecordKey, AccountView>, VotingError> {
    let key = RecordKey::Poll { poll_id };
    if !signer.is_signer {
        Err(VotingError::AuthenticationMissing)
    } else if !text_fits(description) {
        Err(VotingError::LengthViolation)
    } else {
        match derived_address(program_id, key) {
            None => Err(VotingError::AddressDerivationFailure),
            Some(address) => if config.create_poll_once && state.contains_key(key) {
                Err(VotingError::AlreadyExists)
            } else {
                let poll = PollView { poll_id, description, candidates, start_time, end_time };
                Ok(state.insert(key, AccountView { address, record: RecordView::Poll(poll) }))
            },
        }
    }
}

/// What the ledger becomes when `signer` registers itself as a candidate
/// of poll `poll_id`, or why the request is refused.
pub open spec fn candidate_outcome(
    state: Map<RecordKey, AccountView>,
    program_id: Identity,
    signer: Signer,
    poll_id: u64,
    name: Seq<char>,
    description: Seq<char>,
) -> Result<Map<RecordKey, AccountView>, VotingError> {
    let key = RecordKey::Candidate { poll_id, owner: signer.key };
    if !signer.is_signer {
        Err(VotingError::AuthenticationMissing)
    } else if !text_fits(name) || !text_fits(description) {
        Err(VotingError::LengthViolation)
    } else {
        match derived_address(program_id, key) {
            None => Err(VotingError::AddressDerivationFailure),
            Some(address) => if state.contains_key(key) {
                Err(VotingError::AlreadyExists)
            } else {
                let candidate = CandidateView { candidate_id: signer.key, name, description };
                Ok(state.insert(key, AccountView { address, record: RecordView::Candidate(candidate) }))
            },
        }
    }
}

/// What the ledger becomes when `signer` votes for `candidate_id` in poll
/// `poll_id`, or why the request is refused.
pub open spec fn vote_outcome(
    state: Map<RecordKey, AccountView>,
    program_id: Identity,
    config: LedgerConfig,
    signer: Signer,
    poll_id: u64,
    candidate_id: Identity,
) -> Result<Map<RecordKey, AccountView>, VotingError> {
    let key = RecordKey::Vote { poll_id, voter: signer.key };
    if !signer.is_signer {
        Err(VotingError::AuthenticationMissing)
    } else {
        match derived_address(program_id, key) {
            None => Err(VotingError::AddressDerivationFailure),
            Some(address) => if state.contains_key(key) {
                Err(VotingError::AlreadyExists)
            } else if config.vote_checks_references && !(state.contains_key(RecordKey::Poll { poll_id })
                && state.contains_key(RecordKey::Candidate { poll_id, owner: candidate_id })) {
                Err(VotingError::NotFound)
            } else {
                let vote = VoteRecord { voter: signer.key, poll_id, candidate: candidate_id };
                Ok(state.insert(key, AccountView { address, record: RecordView::Vote(vote) }))
            },
        }
    }
}

/// The ledger after a request: the new state where it succeeded, the error
/// where it was refused.
pub open spec fn after(r: Result<(), VotingError>, state: Map<RecordKey, AccountView>) -> Result<
    Map<RecordKey, AccountView>,
    VotingError,
> {
    match r {
        Ok(()) => Ok(state),
        Err(e) => Err(e),
    }
}

/// Creates poll `poll_id` with the given fields, filed at the address of
/// its key; where the ledger lets polls be created again, an existing poll
/// of that id is overwritten.
pub fn initialize_poll(
    ledger: &mut Ledger,
    ctx: &InitializePoll,
    poll_id: u64,
    description: String,
    candidates: u64,
    start_time: u64,
    end_time: u64,
) -> (r: Result<(), VotingError>)
    requires
        old(ledger).wf(),
    ensures
        final(ledger).wf(),
        final(ledger).spec_program_id() == old(ledger).spec_program_id(),
        final(ledger).spec_config() == old(ledger).spec_config(),
        after(r, final(ledger)@) == poll_outcome(
            old(ledger)@,
            old(ledger).spec_program_id(),
            old(ledger).spec_config(),
            ctx.signer,
            poll_id,
            description@,
            candidates,
            start_time,
            end_time,
        ),
        r is Err ==> final(ledger)@ == old(ledger)@,
{
    if !ctx.signer.is_signer {
        return Err(VotingError::AuthenticationMissing);
    }
    if !fits(&description) {
        return Err(VotingError::LengthViolation);
    }
    let key = RecordKey::Poll { poll_id };
    let address = match derive_address(&ledger.program_id(), &key) {
        Some(a) => a,
        None => return Err(VotingError::AddressDerivationFailure),
    };
    if ledger.config().create_poll_once && ledger.contains(&key) {
        return Err(VotingError::AlreadyExists);
    }
    let poll = Poll { poll_id, description, candidates, start_time, end_time };
    ledger.put(Account { key, address, record: Record::Poll(poll) });
    Ok(())
}

/// Registers the caller as a candidate of poll `poll_id`, once per poll.
pub fn initialize_candidate(
    ledger: &mut Ledger,
    ctx: &InitializeCandidate,
    poll_id: u64,
    name: String,
    description: String,
) -> (r: Result<(), VotingError>)
    requires
        old(ledger).wf(),
    ensures
        final(ledger).wf(),
        final(ledger).spec_program_id() == old(ledger).spec_program_id(),
        final(ledger).spec_config() == old(ledger).spec_config(),
        after(r, final(ledger)@) == candidate_outcome(
            old(ledger)@,
            old(ledger).spec_program_id(),
            ctx.signer,
            poll_id,
            name@,
            description@,
        ),
        r is Err ==> final(ledger)@ == old(ledger)@,
{
    if !ctx.signer.is_signer {
        return Err(VotingError::AuthenticationMissing);
    }
    if !fits(&name) || !fits(&description) {
        return Err(VotingError::LengthViolation);
    }
    let key = RecordKey::Candidate { poll_id, owner: ctx.signer.key };
    let address = match derive_address(&ledger.program_id(), &key) {
        Some(a) => a,
        None => return Err(VotingError::AddressDerivationFailure),
    };
    if ledger.contains(&key) {
        return Err(VotingError::AlreadyExists);
    }
    let candidate = Candidate { candidate_id: ctx.signer.key, name, description };
    ledger.put(Account { key, address, record: Record::Candidate(candidate) });
    Ok(())
}

/// Records the caller's vote for `candidate_id` in poll `poll_id`, once per
/// voter and poll.
pub fn vote(ledger: &mut Ledger, ctx: &Vote, poll_id: u64, candidate_id: Identity) -> (r: Result<
    (),
    VotingError,
>)
    requires
        old(ledger).wf(),
    ensures
        final(ledger).wf(),
        final(ledger).spec_program_id() == old(ledger).spec_program_id(),
        final(ledger).spec_config() == old(ledger).spec_config(),
        after(r, final(ledger)@) == vote_outcome(
            old(ledger)@,
            old(ledger).spec_program_id(),
            old(ledger).spec_config(),
            ctx.signer,
            poll_id,
            candidate_id,
        ),
        r is Err ==> final(ledger)@ == old(ledger)@,
{
    if !ctx.signer.is_signer {
        return Err(VotingError::AuthenticationMissing);
    }
    let key = RecordKey::Vote { poll_id, voter: ctx.signer.key };
    let address = match derive_address(&ledger.program_id(), &key) {
        Some(a) => a,
        None => return Err(VotingError::AddressDerivationFailure),
    };
    if ledger.contains(&key) {
        return Err(VotingError::AlreadyExists);
    }
    if ledger.config().vote_checks_references {
        let poll_key = RecordKey::Poll { poll_id };
        let candidate_key = RecordKey::Candidate { poll_id, owner: candidate_id };
        if !ledger.contains(&poll_key) || !ledger.contains(&candidate_key) {
            return Err(VotingError::NotFound);
        }
    }
    let record = VoteRecord { voter: ctx.signer.key, poll_id, candidate: candidate_id };
    ledger.put(Account { key, address, record: Record::Vote(record) });
    Ok(())
}

/// Creating a poll and then reading it back gives exactly the fields that
/// were supplied, at the address its id derives to.
pub proof fn lemma_poll_reads_back(
    state: Map<RecordKey, AccountView>,
    program_id: Identity,
    config: LedgerConfig,
    signer: Signer,
    poll_id: u64,
    description: Seq<char>,
    candidates: u64,
    start_time: u64,
    end_time: u64,
)
    requires
        poll_outcome(state, program_id, config, signer, poll_id, description, candidates, start_time, end_time) is Ok,
    ensures
        ({
            let s = poll_outcome(state, program_id, config, signer, poll_id, description, candidates, start_time, end_time)->Ok_0;
            let key = RecordKey::Poll { poll_id };
            &&& s.contains_key(key)
            &&& s[key].record == RecordView::Poll(PollView { poll_id, description, candidates, start_time, end_time })
            &&& derived_address(program_id, key) == Some(s[key].address)
        }),
{
}

/// An identity registers at most one candidate per poll: once its first
/// registration succeeded, a second one fails, with `AlreadyExists` unless
/// its texts are too long, and the first record stays as it was.
pub proof fn lemma_candidate_registers_once(
    state: Map<RecordKey, AccountView>,
    program_id: Identity,
    signer: Signer,
    poll_id: u64,
    name: Seq<char>,
    description: Seq<char>,
    second_name: Seq<char>,
    second_description: Seq<char>,
)
    requires
        candidate_outcome(state, program_id, signer, poll_id, name, description) is Ok,
    ensures
        ({
            let s = candidate_outcome(state, program_id, signer, poll_id, name, description)->Ok_0;
            let second = candidate_outcome(s, program_id, signer, poll_id, second_name, second_description);
            let key = RecordKey::Candidate { poll_id, owner: signer.key };
            &&& second is Err
            &&& text_fits(second_name) && text_fits(second_description) ==> second == Err::<
                Map<RecordKey, AccountView>,
                VotingError,
            >(VotingError::AlreadyExists)
            &&& s[key].record == RecordView::Candidate(CandidateView { candidate_id: signer.key, name, description })
        }),
{
}

/// A voter votes at most once per poll: once its vote succeeded, any further
/// vote of it in that poll, for whichever candidate, fails with
/// `AlreadyExists`.
pub proof fn lemma_one_vote_per_poll(
    state: Map<RecordKey, AccountView>,
    program_id: Identity,
    config: LedgerConfig,
    signer: Signer,
    poll_id: u64,
    candidate_id: Identity,
    second_candidate_id: Identity,
)
    requires
        vote_outcome(state, program_id, config, signer, poll_id, candidate_id) is Ok,
    ensures
        vote_outcome(
            vote_outcome(state, program_id, config, signer, poll_id, candidate_id)->Ok_0,
            program_id,
            config,
            signer,
            poll_id,
            second_candidate_id,
        ) == Err::<Map<RecordKey, AccountView>, VotingError>(VotingError::AlreadyExists),
{
}

/// Two distinct voters do not block each other: where each could vote in a
/// poll, both votes succeed one after the other and leave two distinct
/// records, each naming its own voter and candidate.
pub proof fn lemma_distinct_voters(
    state: Map<RecordKey, AccountView>,
    program_id: Identity,
    config: LedgerConfig,
    first: Signer,
    second: Signer,
    poll_id: u64,
    first_candidate: Identity,
    second_candidate: Identity,
)
    requires
        first.key != second.key,
        vote_outcome(state, program_id, config, first, poll_id, first_candidate) is Ok,
        vote_outcome(state, program_id, config, second, poll_id, second_candidate) is Ok,
    ensures
        ({
            let s1 = vote_outcome(state, program_id, config, first, poll_id, first_candidate)->Ok_0;
            let s2 = vote_outcome(s1, program_id, config, second, poll_id, second_candidate);
            let k1 = RecordKey::Vote { poll_id, voter: first.key };
            let k2 = RecordKey::Vote { poll_id, voter: second.key };
            &&& s2 is Ok
            &&& k1 != k2
            &&& s2->Ok_0.contains_key(k1) && s2->Ok_0.contains_key(k2)
            &&& s2->Ok_0[k1].record == RecordView::Vote(VoteRecord { voter: first.key, poll_id, candidate: first_candidate })
            &&& s2->Ok_0[k2].record == RecordView::Vote(VoteRecord { voter: second.key, poll_id, candidate: second_candidate })
        }),
{
    let k1 = RecordKey::Vote { poll_id, voter: first.key };
    let k2 = RecordKey::Vote { poll_id, voter: second.key };
    assert(k1 != k2);
}

/// A signed request to create a poll whose description is longer than 280
/// bytes is refused with `LengthViolation`, and so writes no poll.
pub proof fn lemma_long_description_rejected(
    state: Map<RecordKey, AccountView>,
    program_id: Identity,
    config: LedgerConfig,
    signer: Signer,
    poll_id: u64,
    description: Seq<char>,
    candidates: u64,
    start_time: u64,
    end_time: u64,
)
    requires
        signer.is_signer,
        !text_fits(description),
    ensures
        poll_outcome(state, program_id, config, signer, poll_id, description, candidates, start_time, end_time)
            == Err::<Map<RecordKey, AccountView>, VotingError>(VotingError::LengthViolation),
{
}

} // verus!
