use anchor_lang::prelude::Pubkey;
use voting::address::{derive_address, le_bytes, seeds, Identity, RecordKey};
use voting::ledger::{Ledger, LedgerConfig};
use voting::records::{fits, Record};
use voting::voting::{
    initialize_candidate, initialize_poll, vote, InitializeCandidate, InitializePoll, Signer, Vote,
    VotingError,
};

const PROGRAM: Identity = [7u8; 32];

fn id_of(name: &str) -> Identity {
    let mut id = [0u8; 32];
    for (slot, b) in id.iter_mut().zip(name.bytes()) {
        *slot = b;
    }
    id
}

fn signed(name: &str) -> Signer {
    Signer { key: id_of(name), is_signer: true }
}

fn create(ledger: &mut Ledger, who: &str, poll_id: u64, description: &str) -> Result<(), VotingError> {
    let ctx = InitializePoll { signer: signed(who) };
    initialize_poll(ledger, &ctx, poll_id, description.to_string(), 2, 1000, 2000)
}

fn register(ledger: &mut Ledger, who: &str, poll_id: u64, name: &str, description: &str) -> Result<(), VotingError> {
    let ctx = InitializeCandidate { signer: signed(who) };
    initialize_candidate(ledger, &ctx, poll_id, name.to_string(), description.to_string())
}

fn cast(ledger: &mut Ledger, who: &str, poll_id: u64, candidate: &str) -> Result<(), VotingError> {
    let ctx = Vote { signer: signed(who) };
    vote(ledger, &ctx, poll_id, id_of(candidate))
}

fn permissive() -> Ledger {
    Ledger::with_config(PROGRAM, LedgerConfig { create_poll_once: false, vote_checks_references: false })
}

#[test]
fn end_to_end_poll_candidate_vote() {
    let mut ledger = Ledger::new(PROGRAM);
    let ctx = InitializePoll { signer: signed("admin") };
    assert_eq!(initialize_poll(&mut ledger, &ctx, 1, "Best Language".to_string(), 2, 1000, 2000), Ok(()));
    assert_eq!(register(&mut ledger, "cand-rust", 1, "Rust", "Memory safety"), Ok(()));
    let c = ledger.candidate(1, id_of("cand-rust")).unwrap();
    assert_eq!(c.candidate_id, id_of("cand-rust"));
    assert_eq!(c.name, "Rust");
    assert_eq!(c.description, "Memory safety");
    assert_eq!(cast(&mut ledger, "voter-1", 1, "cand-rust"), Ok(()));
    let v = ledger.vote_record(1, id_of("voter-1")).unwrap();
    assert_eq!(v.voter, id_of("voter-1"));
    assert_eq!(v.poll_id, 1);
    assert_eq!(v.candidate, id_of("cand-rust"));
    assert_eq!(cast(&mut ledger, "voter-1", 1, "cand-rust"), Err(VotingError::AlreadyExists));
}

#[test]
fn poll_reads_back_supplied_fields() {
    let mut ledger = Ledger::new(PROGRAM);
    let ctx = InitializePoll { signer: signed("admin") };
    assert_eq!(initialize_poll(&mut ledger, &ctx, 42, "Lunch?".to_string(), 3, 10, 20), Ok(()));
    let p = ledger.poll(42).unwrap();
    assert_eq!(p.poll_id, 42);
    assert_eq!(p.description, "Lunch?");
    assert_eq!(p.candidates, 3);
    assert_eq!(p.start_time, 10);
    assert_eq!(p.end_time, 20);
    assert!(ledger.poll(43).is_none());
}

#[test]
fn description_of_281_bytes_is_rejected() {
    let mut ledger = Ledger::new(PROGRAM);
    let long = "a".repeat(281);
    assert_eq!(create(&mut ledger, "admin", 1, &long), Err(VotingError::LengthViolation));
    assert!(ledger.poll(1).is_none());
    assert!(!ledger.contains(&RecordKey::Poll { poll_id: 1 }));
}

#[test]
fn description_of_280_bytes_is_accepted() {
    let mut ledger = Ledger::new(PROGRAM);
    let exact = "a".repeat(280);
    assert_eq!(create(&mut ledger, "admin", 1, &exact), Ok(()));
    assert_eq!(ledger.poll(1).unwrap().description.len(), 280);
}

#[test]
fn text_length_counts_bytes() {
    assert!(fits(&"\u{e9}".repeat(140)));
    assert!(!fits(&"\u{e9}".repeat(141)));
    assert!(fits(&String::new()));
    let mut ledger = Ledger::new(PROGRAM);
    assert_eq!(register(&mut ledger, "cand", 1, &"\u{e9}".repeat(141), "ok"), Err(VotingError::LengthViolation));
    assert_eq!(register(&mut ledger, "cand", 1, "ok", &"b".repeat(281)), Err(VotingError::LengthViolation));
    assert!(ledger.candidate(1, id_of("cand")).is_none());
}

#[test]
fn candidate_registers_once_per_poll() {
    let mut ledger = Ledger::new(PROGRAM);
    assert_eq!(register(&mut ledger, "alice", 5, "Alice", "first"), Ok(()));
    assert_eq!(register(&mut ledger, "alice", 5, "Alice 2", "second"), Err(VotingError::AlreadyExists));
    let c = ledger.candidate(5, id_of("alice")).unwrap();
    assert_eq!(c.name, "Alice");
    assert_eq!(c.description, "first");
    assert_eq!(register(&mut ledger, "alice", 6, "Alice", "other poll"), Ok(()));
}

#[test]
fn candidate_needs_no_poll() {
    let mut ledger = Ledger::new(PROGRAM);
    assert_eq!(register(&mut ledger, "bob", 99, "Bob", "no poll yet"), Ok(()));
    assert!(ledger.poll(99).is_none());
}

#[test]
fn voter_votes_once_per_poll() {
    let mut ledger = Ledger::new(PROGRAM);
    assert_eq!(create(&mut ledger, "admin", 1, "Q"), Ok(()));
    assert_eq!(register(&mut ledger, "a", 1, "A", "x"), Ok(()));
    assert_eq!(register(&mut ledger, "b", 1, "B", "y"), Ok(()));
    assert_eq!(cast(&mut ledger, "v", 1, "a"), Ok(()));
    assert_eq!(cast(&mut ledger, "v", 1, "b"), Err(VotingError::AlreadyExists));
    assert_eq!(ledger.vote_record(1, id_of("v")).unwrap().candidate, id_of("a"));
}

#[test]
fn distinct_voters_both_recorded() {
    let mut ledger = Ledger::new(PROGRAM);
    assert_eq!(create(&mut ledger, "admin", 3, "Q"), Ok(()));
    assert_eq!(register(&mut ledger, "a", 3, "A", "x"), Ok(()));
    assert_eq!(register(&mut ledger, "b", 3, "B", "y"), Ok(()));
    assert_eq!(cast(&mut ledger, "v1", 3, "a"), Ok(()));
    assert_eq!(cast(&mut ledger, "v2", 3, "b"), Ok(()));
    let r1 = ledger.vote_record(3, id_of("v1")).unwrap();
    let r2 = ledger.vote_record(3, id_of("v2")).unwrap();
    assert_eq!((r1.voter, r1.candidate), (id_of("v1"), id_of("a")));
    assert_eq!((r2.voter, r2.candidate), (id_of("v2"), id_of("b")));
    let a1 = ledger.account(&RecordKey::Vote { poll_id: 3, voter: id_of("v1") }).unwrap().address;
    let a2 = ledger.account(&RecordKey::Vote { poll_id: 3, voter: id_of("v2") }).unwrap().address;
    assert_ne!(a1.key, a2.key);
}

#[test]
fn unsigned_requests_are_refused() {
    let mut ledger = permissive();
    let nobody = Signer { key: id_of("x"), is_signer: false };
    let r = initialize_poll(&mut ledger, &InitializePoll { signer: nobody }, 1, "Q".to_string(), 1, 0, 0);
    assert_eq!(r, Err(VotingError::AuthenticationMissing));
    let r = initialize_candidate(&mut ledger, &InitializeCandidate { signer: nobody }, 1, "n".to_string(), "d".to_string());
    assert_eq!(r, Err(VotingError::AuthenticationMissing));
    let r = vote(&mut ledger, &Vote { signer: nobody }, 1, id_of("c"));
    assert_eq!(r, Err(VotingError::AuthenticationMissing));
    assert!(ledger.poll(1).is_none());
    assert!(ledger.candidate(1, id_of("x")).is_none());
    assert!(ledger.vote_record(1, id_of("x")).is_none());
}

#[test]
fn strict_ledger_creates_poll_once() {
    let mut ledger = Ledger::new(PROGRAM);
    assert_eq!(create(&mut ledger, "admin", 1, "first"), Ok(()));
    assert_eq!(create(&mut ledger, "admin", 1, "second"), Err(VotingError::AlreadyExists));
    assert_eq!(ledger.poll(1).unwrap().description, "first");
}

#[test]
fn permissive_ledger_overwrites_poll() {
    let mut ledger = permissive();
    assert_eq!(create(&mut ledger, "admin", 1, "first"), Ok(()));
    assert_eq!(create(&mut ledger, "other", 1, "second"), Ok(()));
    assert_eq!(ledger.poll(1).unwrap().description, "second");
}

#[test]
fn strict_vote_needs_poll_and_candidate() {
    let mut ledger = Ledger::new(PROGRAM);
    assert_eq!(cast(&mut ledger, "v", 1, "a"), Err(VotingError::NotFound));
    assert_eq!(create(&mut ledger, "admin", 1, "Q"), Ok(()));
    assert_eq!(cast(&mut ledger, "v", 1, "a"), Err(VotingError::NotFound));
    assert_eq!(register(&mut ledger, "a", 2, "A", "other poll"), Ok(()));
    assert_eq!(cast(&mut ledger, "v", 1, "a"), Err(VotingError::NotFound));
    assert_eq!(register(&mut ledger, "a", 1, "A", "this poll"), Ok(()));
    assert_eq!(cast(&mut ledger, "v", 1, "a"), Ok(()));
}

#[test]
fn permissive_vote_trusts_reference() {
    let mut ledger = permissive();
    assert_eq!(cast(&mut ledger, "v", 1, "nobody"), Ok(()));
    assert_eq!(ledger.vote_record(1, id_of("v")).unwrap().candidate, id_of("nobody"));
}

#[test]
fn le_bytes_are_little_endian() {
    assert_eq!(le_bytes(0x0102030405060708), vec![8, 7, 6, 5, 4, 3, 2, 1]);
    assert_eq!(le_bytes(0), vec![0; 8]);
    assert_eq!(le_bytes(u64::MAX), vec![255; 8]);
}

#[test]
fn seeds_follow_the_namespaces() {
    assert_eq!(seeds(&RecordKey::Poll { poll_id: 1 }), vec![b"poll".to_vec(), 1u64.to_le_bytes().to_vec()]);
    let owner = id_of("owner");
    assert_eq!(
        seeds(&RecordKey::Candidate { poll_id: 2, owner }),
        vec![b"candidate".to_vec(), 2u64.to_le_bytes().to_vec(), owner.to_vec()]
    );
    assert_eq!(
        seeds(&RecordKey::Vote { poll_id: 3, voter: owner }),
        vec![b"vote".to_vec(), 3u64.to_le_bytes().to_vec(), owner.to_vec()]
    );
}

#[test]
fn derived_address_is_the_program_address() {
    let key = RecordKey::Vote { poll_id: 9, voter: id_of("voter") };
    let a = derive_address(&PROGRAM, &key).unwrap();
    let voter = id_of("voter");
    let (expected, bump) = Pubkey::find_program_address(
        &[b"vote".as_ref(), 9u64.to_le_bytes().as_ref(), voter.as_ref()],
        &Pubkey::new_from_array(PROGRAM),
    );
    assert_eq!(a.key, expected.to_bytes());
    assert_eq!(a.bump, bump);
    assert_ne!(a.key, PROGRAM);
    assert_eq!(derive_address(&PROGRAM, &key), Some(a));
}

#[test]
fn stored_records_sit_at_their_derived_address() {
    let mut ledger = Ledger::new(PROGRAM);
    assert_eq!(create(&mut ledger, "admin", 4, "Q"), Ok(()));
    let key = RecordKey::Poll { poll_id: 4 };
    let account = ledger.account(&key).unwrap();
    assert_eq!(Some(account.address), derive_address(&PROGRAM, &key));
    assert!(matches!(&account.record, Record::Poll(p) if p.poll_id == 4));
    assert_eq!(ledger.program_id(), PROGRAM);
    assert!(ledger.config().create_poll_once);
    let other = derive_address(&PROGRAM, &RecordKey::Poll { poll_id: 5 }).unwrap();
    assert_ne!(account.address.key, other.key);
}
