//! Record keys, the seeds they are hashed from, and program-derived addresses.

use vstd::prelude::*;

verus! {

/// A 32-byte public key: a caller, a candidate's owner or the program itself.
pub type Identity = [u8; 32];

/// The logical key of a record: a namespace and the fields that identify it.
#[derive(Clone, Copy, Debug, PartialEq, Eq)]
pub enum RecordKey {
    Poll { poll_id: u64 },
    Candidate { poll_id: u64, owner: Identity },
    Vote { poll_id: u64, voter: Identity },
}

/// The eight bytes of `n`, least significant first.
pub open spec fn le_bytes_of(n: u64) -> Seq<u8> {
    seq![
        (n & 0xff) as u8,
        ((n >> 8u64) & 0xff) as u8,
        ((n >> 16u64) & 0xff) as u8,
        ((n >> 24u64) & 0xff) as u8,
        ((n >> 32u64) & 0xff) as u8,
        ((n >> 40u64) & 0xff) as u8,
        ((n >> 48u64) & 0xff) as u8,
        ((n >> 56u64) & 0xff) as u8,
    ]
}

/// The bytes of the text `poll`.
pub open spec fn poll_tag() -> Seq<u8> {
    seq![112u8, 111, 108, 108]
}

/// The bytes of the text `candidate`.
pub open spec fn candidate_tag() -> Seq<u8> {
    seq![99u8, 97, 110, 100, 105, 100, 97, 116, 101]
}

/// The bytes of the text `vote`.
pub open spec fn vote_tag() -> Seq<u8> {
    seq![118u8, 111, 116, 101]
}

/// The seeds that a record's address is derived from: the namespace tag,
/// the poll id in little-endian order and, for candidates and votes, the
/// acting identity.
pub open spec fn seeds_of(key: RecordKey) -> Seq<Seq<u8>> {
    match key {
        RecordKey::Poll { poll_id } => seq![poll_tag(), le_bytes_of(poll_id)],
        RecordKey::Candidate { poll_id, owner } => seq![candidate_tag(), le_bytes_of(poll_id), owner@],
        RecordKey::Vote { poll_id, voter } => seq![vote_tag(), le_bytes_of(poll_id), voter@],
    }
}

/// Where a record lives: the derived public key and the bump seed that put
/// it off the curve.
#[derive(Clone, Copy, Debug, PartialEq, Eq)]
pub struct Address {
    pub key: Identity,
    pub bump: u8,
}

impl View for Address {
    type V = (Seq<u8>, u8);

    open spec fn view(&self) -> (Seq<u8>, u8) {
        (self.key@, self.bump)
    }
}

/// The program-derived address of `seeds` under `program_id`: the first key,
/// trying bump seeds from the highest down, that lies off the ed25519 curve;
/// `None` where no bump gives one or the seeds are too long.
pub uninterp spec fn program_address_of(seeds: Seq<Seq<u8>>, program_id: Seq<u8>) -> Option<(Seq<u8>, u8)>;

/// The address that `key` derives to under `program_id`.
pub open spec fn derived_address(program_id: Identity, key: RecordKey) -> Option<(Seq<u8>, u8)> {
    program_address_of(seeds_of(key), program_id@)
}

/// The view of an address that may be absent.
pub open spec fn address_view(a: Option<Address>) -> Option<(Seq<u8>, u8)> {
    match a {
        Some(a) => Some(a@),
        None => None,
    }
}

/// Relies on `Pubkey::try_find_program_address` of solana-program (through
/// anchor-lang's prelude): its result depends on the seeds and the program id
/// alone.
#[verifier::external_body]
fn find_program_address(seeds: &Vec<Vec<u8>>, program_id: &Identity) -> (r: Option<Address>)
    ensures
        address_view(r) == program_address_of(seeds.deep_view(), program_id@),
{
    let parts: Vec<&[u8]> = seeds.iter().map(|s| s.as_slice()).collect();
    let program = anchor_lang::prelude::Pubkey::new_from_array(*program_id);
    anchor_lang::prelude::Pubkey::try_find_program_address(&parts, &program).map(
        |(k, bump)| Address { key: k.to_bytes(), bump },
    )
}

/// Whether two identities hold the same bytes.
pub fn same_identity(a: &Identity, b: &Identity) -> (r: bool)
    ensures
        r == (*a == *b),
{
    let mut i: usize = 0;
    while i < 32
        invariant
            i <= 32,
            forall|j: int| 0 <= j < i ==> a[j] == b[j],
        decreases 32 - i,
    {
        if a[i] != b[i] {
            return false;
        }
        i = i + 1;
    }
    proof {
        broadcast use vstd::array::group_array_axioms;

        assert(*a =~= *b);
    }
    true
}

/// Whether two keys name the same record.
pub fn same_key(a: &RecordKey, b: &RecordKey) -> (r: bool)
    ensures
        r == (*a == *b),
{
    match (a, b) {
        (RecordKey::Poll { poll_id: pa }, RecordKey::Poll { poll_id: pb }) => *pa == *pb,
        (RecordKey::Candidate { poll_id: pa, owner: o1 }, RecordKey::Candidate { poll_id: pb, owner: o2 }) => {
            *pa == *pb && same_identity(o1, o2)
        },
        (RecordKey::Vote { poll_id: pa, voter: v1 }, RecordKey::Vote { poll_id: pb, voter: v2 }) => {
            *pa == *pb && same_identity(v1, v2)
        },
        _ => false,
    }
}

/// The eight bytes of `n`, least significant first.
pub fn le_bytes(n: u64) -> (r: Vec<u8>)
    ensures
        r@ == le_bytes_of(n),
{
    let mut r: Vec<u8> = Vec::new();
    r.push((n & 0xff) as u8);
    r.push(((n >> 8u64) & 0xff) as u8);
    r.push(((n >> 16u64) & 0xff) as u8);
    r.push(((n >> 24u64) & 0xff) as u8);
    r.push(((n >> 32u64) & 0xff) as u8);
    r.push(((n >> 40u64) & 0xff) as u8);
    r.push(((n >> 48u64) & 0xff) as u8);
    r.push(((n >> 56u64) & 0xff) as u8);
    assert(r@ =~= le_bytes_of(n));
    r
}

fn identity_bytes(id: &Identity) -> (r: Vec<u8>)
    ensures
        r@ == id@,
{
    let mut r: Vec<u8> = Vec::new();
    let mut i: usize = 0;
    while i < 32
        invariant
            i <= 32,
            r@ == id@.subrange(0, i as int),
        decreases 32 - i,
    {
        r.push(id[i]);
        i = i + 1;
    }
    assert(r@ =~= id@);
    r
}

fn tag(key: &RecordKey) -> (r: Vec<u8>)
    ensures
        r@ == seeds_of(*key)[0],
{
    let r = match key {
        RecordKey::Poll { .. } => vec![112u8, 111, 108, 108],
        RecordKey::Candidate { .. } => vec![99u8, 97, 110, 100, 105, 100, 97, 116, 101],
        RecordKey::Vote { .. } => vec![118u8, 111, 116, 101],
    };
    assert(r@ =~= seeds_of(*key)[0]);
    r
}

/// The seeds of `key`.
pub fn seeds(key: &RecordKey) -> (r: Vec<Vec<u8>>)
    ensures
        r.deep_view() == seeds_of(*key),
{
    let mut r: Vec<Vec<u8>> = Vec::new();
    r.push(tag(key));
    match key {
        RecordKey::Poll { poll_id } => {
            r.push(le_bytes(*poll_id));
        },
        RecordKey::Candidate { poll_id, owner } => {
            r.push(le_bytes(*poll_id));
            r.push(identity_bytes(owner));
        },
        RecordKey::Vote { poll_id, voter } => {
            r.push(le_bytes(*poll_id));
            r.push(identity_bytes(voter));
        },
    }
    assert forall|i: int| 0 <= i < r.len() implies r[i].deep_view() == r[i]@ by {
        assert(r[i].deep_view() =~= r[i]@);
    }
    assert(r.deep_view() =~= seeds_of(*key));
    r
}

/// Derives the address of the record that `key` names under `program_id`;
/// `None` where the seeds have no program-derived address.
pub fn derive_address(program_id: &Identity, key: &RecordKey) -> (r: Option<Address>)
    ensures
        address_view(r) == derived_address(*program_id, *key),
{
    let s = seeds(key);
    find_program_address(&s, program_id)
}

proof fn lemma_le_bytes_injective(a: u64, b: u64)
    requires
        le_bytes_of(a) == le_bytes_of(b),
    ensures
        a == b,
{
    let (x, y) = (le_bytes_of(a), le_bytes_of(b));
    assert(x[0] == y[0] && x[1] == y[1] && x[2] == y[2] && x[3] == y[3]);
    assert(x[4] == y[4] && x[5] == y[5] && x[6] == y[6] && x[7] == y[7]);
    assert(a == b) by (bit_vector)
        requires
            (a & 0xff) as u8 == (b & 0xff) as u8,
            ((a >> 8u64) & 0xff) as u8 == ((b >> 8u64) & 0xff) as u8,
            ((a >> 16u64) & 0xff) as u8 == ((b >> 16u64) & 0xff) as u8,
            ((a >> 24u64) & 0xff) as u8 == ((b >> 24u64) & 0xff) as u8,
            ((a >> 32u64) & 0xff) as u8 == ((b >> 32u64) & 0xff) as u8,
            ((a >> 40u64) & 0xff) as u8 == ((b >> 40u64) & 0xff) as u8,
            ((a >> 48u64) & 0xff) as u8 == ((b >> 48u64) & 0xff) as u8,
            ((a >> 56u64) & 0xff) as u8 == ((b >> 56u64) & 0xff) as u8,
    ;
}

/// Distinct keys have distinct seeds, so no two records are ever hashed from
/// the same input: a poll, a candidate and a vote never share seeds, nor do
/// two records of one namespace that differ in poll or identity.
pub proof fn lemma_seeds_injective(k1: RecordKey, k2: RecordKey)
    requires
        seeds_of(k1) == seeds_of(k2),
    ensures
        k1 == k2,
{
    let (s1, s2) = (seeds_of(k1), seeds_of(k2));
    assert(s1[0] == s2[0]);
    assert(s1[0].len() == s2[0].len());
    assert(s1[1] == s2[1]);
    match k1 {
        RecordKey::Poll { poll_id: pa } => {
            if let RecordKey::Poll { poll_id: pb } = k2 {
                lemma_le_bytes_injective(pa, pb);
            } else {
                assert(s2[0][0] != 112u8);
            }
        },
        RecordKey::Candidate { poll_id: pa, owner: o1 } => {
            if let RecordKey::Candidate { poll_id: pb, owner: o2 } = k2 {
                lemma_le_bytes_injective(pa, pb);
                assert(s1[2] == s2[2]);
                assert(o1@ =~= o2@);
                assert(o1 == o2);
            }
        },
        RecordKey::Vote { poll_id: pa, voter: v1 } => {
            if let RecordKey::Vote { poll_id: pb, voter: v2 } = k2 {
                lemma_le_bytes_injective(pa, pb);
                assert(s1[2] == s2[2]);
                assert(v1@ =~= v2@);
                assert(v1 == v2);
            } else {
                assert(s2[0][0] != 118u8);
            }
        },
    }
}

/// The same key under the same program always derives the same address.
pub proof fn lemma_derive_deterministic(program_id: Identity, k1: RecordKey, k2: RecordKey)
    requires
        k1 == k2,
    ensures
        derived_address(program_id, k1) == derived_address(program_id, k2),
{
}

} // verus!
