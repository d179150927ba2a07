//! The keyed store that holds every record at its derived address.

use vstd::prelude::*;
use crate::address::{Address, Identity, RecordKey, derived_address, same_key};
use crate::records::{Candidate, Poll, Record, RecordView, VoteRecord};

verus! {

/// Two choices of strictness: whether polls may be re-created, and whether
/// votes must name existing records.
#[derive(Clone, Copy, Debug, PartialEq, Eq)]
pub struct LedgerConfig {
    /// A poll may be created only once; otherwise a second creation
    /// overwrites the first.
    pub create_poll_once: bool,
    /// A vote must name a poll and a candidate of that poll that exist.
    pub vote_checks_references: bool,
}

/// A record together with the key it is filed under and the address it
/// lives at.
#[derive(Clone, Debug)]
pub struct Account {
    pub key: RecordKey,
    pub address: Address,
    pub record: Record,
}

pub struct AccountView {
    pub address: (Seq<u8>, u8),
    pub record: RecordView,
}

impl View for Account {
    type V = AccountView;

    open spec fn view(&self) -> AccountView {
        AccountView { address: self.address@, record: self.record@ }
    }
}

/// Whether `record` is the kind of record that `key` names, with the key's
/// fields.
pub open spec fn matches_key(key: RecordKey, record: RecordView) -> bool {
    match (key, record) {
        (RecordKey::Poll { poll_id }, RecordView::Poll(p)) => p.poll_id == poll_id,
        (RecordKey::Candidate { poll_id, owner }, RecordView::Candidate(c)) => c.candidate_id == owner,
        (RecordKey::Vote { poll_id, voter }, RecordView::Vote(v)) => v.voter == voter && v.poll_id == poll_id,
        _ => false,
    }
}

/// Whether an account filed under `key` sits at the address that `key`
/// derives to and holds a record of that key.
pub open spec fn well_placed(program_id: Identity, key: RecordKey, account: AccountView) -> bool {
    &&& derived_address(program_id, key) == Some(account.address)
    &&& matches_key(key, account.record)
}

/// All records of one program, each filed under its key.
pub struct Ledger {
    program_id: Identity,
    config: LedgerConfig,
    accounts: Vec<Account>,
    model: Ghost<Map<RecordKey, AccountView>>,
}

impl View for Ledger {
    type V = Map<RecordKey, AccountView>;

    closed spec fn view(&self) -> Map<RecordKey, AccountView> {
        self.model@
    }
}

impl Ledger {
    pub closed spec fn spec_program_id(&self) -> Identity {
        self.program_id
    }

    pub closed spec fn spec_config(&self) -> LedgerConfig {
        self.config
    }

    /// Every account is filed once, under its own key, in the model.
    pub closed spec fn wf(&self) -> bool {
        &&& forall|i: int|
            0 <= i < self.accounts.len() ==> {
                &&& #[trigger] self.model@.contains_key(self.accounts[i].key)
                &&& self.model@[self.accounts[i].key] == self.accounts[i]@
            }
        &&& forall|k: RecordKey|
            #[trigger] self.model@.contains_key(k) ==> exists|i: int|
                0 <= i < self.accounts.len() && #[trigger] self.accounts[i].key == k
        &&& forall|i: int, j: int|
            0 <= i < self.accounts.len() && 0 <= j < self.accounts.len()
                && #[trigger] self.accounts[i].key == #[trigger] self.accounts[j].key ==> i == j
        &&& forall|k: RecordKey|
            #[trigger] self.model@.contains_key(k) ==> well_placed(self.program_id, k, self.model@[k])
    }

    /// An empty ledger of the program `program_id`, with the stricter
    /// choices: polls are created once and votes must name existing records.
    pub fn new(program_id: Identity) -> (r: Ledger)
        ensures
            r.wf(),
            r@ == Map::<RecordKey, AccountView>::empty(),
            r.spec_program_id() == program_id,
            r.spec_config() == (LedgerConfig { create_poll_once: true, vote_checks_references: true }),
    {
        Ledger::with_config(program_id, LedgerConfig { create_poll_once: true, vote_checks_references: true })
    }

    /// An empty ledger of the program `program_id` that follows `config`.
    pub fn with_config(program_id: Identity, config: LedgerConfig) -> (r: Ledger)
        ensures
            r.wf(),
            r@ == Map::<RecordKey, AccountView>::empty(),
            r.spec_program_id() == program_id,
            r.spec_config() == config,
    {
        Ledger { program_id, config, accounts: Vec::new(), model: Ghost(Map::empty()) }
    }

    pub fn program_id(&self) -> (r: Identity)
        ensures
            r == self.spec_program_id(),
    {
        self.program_id
    }

    pub fn config(&self) -> (r: LedgerConfig)
        ensures
            r == self.spec_config(),
    {
        self.config
    }

    fn position(&self, key: &RecordKey) -> (r: Option<usize>)
        requires
            self.wf(),
        ensures
            match r {
                Some(i) => i < self.accounts.len() && self.accounts[i as int].key == *key,
                None => !self@.contains_key(*key),
            },
    {
        let mut i: usize = 0;
        while i < self.accounts.len()
            invariant
                self.wf(),
                i <= self.accounts.len(),
                forall|j: int| 0 <= j < i ==> self.accounts[j].key != *key,
            decreases self.accounts.len() - i,
        {
            if same_key(&self.accounts[i].key, key) {
                return Some(i);
            }
            i = i + 1;
        }
        None
    }

    /// The account filed under `key`, if there is one.
    pub fn account(&self, key: &RecordKey) -> (r: Option<&Account>)
        requires
            self.wf(),
        ensures
            r is Some <==> self@.contains_key(*key),
            r matches Some(a) ==> a.key == *key && a@ == self@[*key],
    {
        match self.position(key) {
            Some(i) => {
                assert(self@.contains_key(self.accounts[i as int].key));
                Some(&self.accounts[i])
            },
            None => None,
        }
    }

    /// Whether a record is filed under `key`.
    pub fn contains(&self, key: &RecordKey) -> (r: bool)
        requires
            self.wf(),
        ensures
            r == self@.contains_key(*key),
    {
        self.position(key).is_some()
    }

    /// Files `account` under its key, replacing what was there.
    pub(crate) fn put(&mut self, account: Account)
        requires
            old(self).wf(),
            well_placed(old(self).spec_program_id(), account.key, account@),
        ensures
            final(self).wf(),
            final(self)@ == old(self)@.insert(account.key, account@),
            final(self).spec_program_id() == old(self).spec_program_id(),
            final(self).spec_config() == old(self).spec_config(),
    {
        let ghost key = account.key;
        let ghost v = account@;
        match self.position(&account.key) {
            Some(i) => {
                self.accounts.set(i, account);
                self.model = Ghost(self.model@.insert(key, v));
                assert forall|k: RecordKey| #[trigger] self.model@.contains_key(k) implies exists|j: int|
                    0 <= j < self.accounts.len() && #[trigger] self.accounts[j].key == k by {
                    if k != key {
                        let j = choose|j: int| 0 <= j < old(self).accounts.len() && #[trigger] old(self).accounts[j].key == k;
                        assert(self.accounts[j].key == k);
                    } else {
                        assert(self.accounts[i as int].key == k);
                    }
                }
                assert forall|j: int| 0 <= j < self.accounts.len() implies {
                    &&& #[trigger] self.model@.contains_key(self.accounts[j].key)
                    &&& self.model@[self.accounts[j].key] == self.accounts[j]@
                } by {
                    if self.accounts[j].key != key {
                        assert(old(self).accounts[j] == self.accounts[j]);
                        assert(old(self).model@.contains_key(old(self).accounts[j].key));
                    }
                }
                assert forall|j1: int, j2: int|
                    0 <= j1 < self.accounts.len() && 0 <= j2 < self.accounts.len()
                        && #[trigger] self.accounts[j1].key == #[trigger] self.accounts[j2].key implies j1 == j2 by {
                    if self.accounts[j1].key != key {
                        assert(old(self).accounts[j1] == self.accounts[j1]);
                        assert(old(self).accounts[j2] == self.accounts[j2]);
                    }
                }
            },
            None => {
                self.accounts.push(account);
                self.model = Ghost(self.model@.insert(key, v));
                assert forall|k: RecordKey| #[trigger] self.model@.contains_key(k) implies exists|j: int|
                    0 <= j < self.accounts.len() && #[trigger] self.accounts[j].key == k by {
                    if k != key {
                        let j = choose|j: int| 0 <= j < old(self).accounts.len() && #[trigger] old(self).accounts[j].key == k;
                        assert(self.accounts[j].key == k);
                    } else {
                        assert(self.accounts[self.accounts.len() - 1].key == k);
                    }
                }
                assert forall|j: int| 0 <= j < self.accounts.len() implies {
                    &&& #[trigger] self.model@.contains_key(self.accounts[j].key)
                    &&& self.model@[self.accounts[j].key] == self.accounts[j]@
                } by {
                    if self.accounts[j].key != key {
                        assert(old(self).accounts[j] == self.accounts[j]);
                        assert(old(self).model@.contains_key(old(self).accounts[j].key));
                    }
                }
                assert forall|j1: int, j2: int|
                    0 <= j1 < self.accounts.len() && 0 <= j2 < self.accounts.len()
                        && #[trigger] self.accounts[j1].key == #[trigger] self.accounts[j2].key implies j1 == j2 by {
                    if self.accounts[j1].key != key {
                        assert(old(self).accounts[j1] == self.accounts[j1]);
                        assert(old(self).accounts[j2] == self.accounts[j2]);
                    }
                }
            },
        }
    }

    /// The poll with id `poll_id`, if one was created.
    pub fn poll(&self, poll_id: u64) -> (r: Option<&Poll>)
        requires
            self.wf(),
        ensures
            r is Some <==> self@.contains_key(RecordKey::Poll { poll_id }),
            r matches Some(p) ==> self@[RecordKey::Poll { poll_id }].record == RecordView::Poll(p@),
    {
        match self.account(&RecordKey::Poll { poll_id }) {
            Some(a) => match &a.record {
                Record::Poll(p) => Some(p),
                _ => None,
            },
            None => None,
        }
    }

    /// The candidate that `owner` registered for poll `poll_id`, if any.
    pub fn candidate(&self, poll_id: u64, owner: Identity) -> (r: Option<&Candidate>)
        requires
            self.wf(),
        ensures
            r is Some <==> self@.contains_key(RecordKey::Candidate { poll_id, owner }),
            r matches Some(c) ==> self@[RecordKey::Candidate { poll_id, owner }].record == RecordView::Candidate(c@),
    {
        match self.account(&RecordKey::Candidate { poll_id, owner }) {
            Some(a) => match &a.record {
                Record::Candidate(c) => Some(c),
                _ => None,
            },
            None => None,
        }
    }

    /// The vote that `voter` cast in poll `poll_id`, if any.
    pub fn vote_record(&self, poll_id: u64, voter: Identity) -> (r: Option<VoteRecord>)
        requires
            self.wf(),
        ensures
            r is Some <==> self@.contains_key(RecordKey::Vote { poll_id, voter }),
            r matches Some(v) ==> self@[RecordKey::Vote { poll_id, voter }].record == RecordView::Vote(v),
    {
        match self.account(&RecordKey::Vote { poll_id, voter }) {
            Some(a) => match &a.record {
                Record::Vote(v) => Some(*v),
                _ => None,
            },
            None => None,
        }
    }
}

/// Every record in a well-formed ledger sits at the address that its key
/// derives to under the ledger's program, and holds the fields of its key.
pub proof fn lemma_records_well_placed(ledger: &Ledger, key: RecordKey)
    requires
        ledger.wf(),
        ledger@.contains_key(key),
    ensures
        well_placed(ledger.spec_program_id(), key, ledger@[key]),
{
}

} // verus!
