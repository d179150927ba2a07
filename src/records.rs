//! The three kinds of record: polls, candidates and votes.

use vstd::prelude::*;
use vstd::utf8::encode_utf8;
use crate::address::Identity;

verus! {

/// The most bytes that a text field may hold.
pub const MAX_TEXT_LEN: usize = 280;

/// Whether `s` fits a text field: at most 280 bytes in UTF-8.
pub open spec fn text_fits(s: Seq<char>) -> bool {
    encode_utf8(s).len() <= MAX_TEXT_LEN
}

/// Whether `s` fits a text field.
pub fn fits(s: &String) -> (r: bool)
    ensures
        r == text_fits(s@),
{
    let bytes: &[u8] = s.as_str().as_bytes();
    bytes.len() <= MAX_TEXT_LEN
}

/// A poll: its id, what it asks, how many candidates it expects and the
/// time span it was given.
#[derive(Clone, Debug)]
pub struct Poll {
    pub poll_id: u64,
    pub description: String,
    pub candidates: u64,
    pub start_time: u64,
    pub end_time: u64,
}

pub struct PollView {
    pub poll_id: u64,
    pub description: Seq<char>,
    pub candidates: u64,
    pub start_time: u64,
    pub end_time: u64,
}

impl View for Poll {
    type V = PollView;

    open spec fn view(&self) -> PollView {
        PollView {
            poll_id: self.poll_id,
            description: self.description@,
            candidates: self.candidates,
            start_time: self.start_time,
            end_time: self.end_time,
        }
    }
}

/// A candidate, owned by the identity that registered it.
#[derive(Clone, Debug)]
pub struct Candidate {
    pub candidate_id: Identity,
    pub name: String,
    pub description: String,
}

pub struct CandidateView {
    pub candidate_id: Identity,
    pub name: Seq<char>,
    pub description: Seq<char>,
}

impl View for Candidate {
    type V = CandidateView;

    open spec fn view(&self) -> CandidateView {
        CandidateView { candidate_id: self.candidate_id, name: self.name@, description: self.description@ }
    }
}

/// One voter's vote in one poll.
#[derive(Clone, Copy, Debug, PartialEq, Eq)]
pub struct VoteRecord {
    pub voter: Identity,
    pub poll_id: u64,
    pub candidate: Identity,
}

/// A stored record of any kind.
#[derive(Clone, Debug)]
pub enum Record {
    Poll(Poll),
    Candidate(Candidate),
    Vote(VoteRecord),
}

pub enum RecordView {
    Poll(PollView),
    Candidate(CandidateView),
    Vote(VoteRecord),
}

impl View for Record {
    type V = RecordView;

    open spec fn view(&self) -> RecordView {
        match self {
            Record::Poll(p) => RecordView::Poll(p@),
            Record::Candidate(c) => RecordView::Candidate(c@),
            Record::Vote(v) => RecordView::Vote(*v),
        }
    }
}

} // verus!
