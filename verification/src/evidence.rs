//! Evidence of malfeasance by validators (i.e. signing conflicting votes),
//! reduced to the plain values the evidence rules read. The on-wire encoding
//! of these types is the surrounding node's concern, not this library's.

use vstd::prelude::*;

verus! {

/// A vote cast by a validator, reduced to the parts evidence handling reads.
#[derive(Clone, Copy, Debug, PartialEq, Eq, Structural)]
pub struct Vote {
    /// Height of the block the vote is about.
    pub height: u64,
    /// Consensus round the vote was cast in.
    pub round: u32,
    /// Index of the validator that signed.
    pub validator_index: u32,
}

/// A signed block header, reduced to the parts conflicting-header evidence
/// carries.
#[derive(Clone, Copy, Debug, PartialEq, Eq, Structural)]
pub struct SignedHeader {
    /// Height of the header.
    pub height: u64,
    /// The header's digest, as a plain number standing for the hash bytes.
    pub header_hash: u64,
}

/// Rejections when constructing evidence.
#[derive(Clone, Copy, Debug, PartialEq, Eq, Structural)]
pub enum Error {
    /// The parts do not form valid evidence.
    InvalidEvidence,
}

/// Evidence of malfeasance by a validator.
#[derive(Clone, Copy, Debug, PartialEq, Eq, Structural)]
pub enum Evidence {
    /// Two conflicting votes by one validator.
    DuplicateVote(DuplicateVoteEvidence),
    /// Two conflicting signed headers for one height.
    ConflictingHeaders(ConflictingHeadersEvidence),
    /// An attack on a light client.
    LightClientAttackEvidence,
}

/// Duplicate vote evidence: two votes on the same height.
#[derive(Clone, Copy, Debug, PartialEq, Eq, Structural)]
pub struct DuplicateVoteEvidence {
    vote_a: Vote,
    vote_b: Vote,
}

impl DuplicateVoteEvidence {
    /// The two votes, as a mathematical pair.
    pub closed spec fn spec_votes(&self) -> (Vote, Vote) {
        (self.vote_a, self.vote_b)
    }

    /// Accepts exactly the pairs of votes that share a height.
    pub fn new(vote_a: Vote, vote_b: Vote) -> (r: Result<Self, Error>)
        ensures
            vote_a.height == vote_b.height ==> r is Ok
                && r->Ok_0.spec_votes() == (vote_a, vote_b),
            vote_a.height != vote_b.height ==> r == Err::<Self, Error>(Error::InvalidEvidence),
    {
        if vote_a.height != vote_b.height {
            return Err(Error::InvalidEvidence);
        }
        Ok(Self { vote_a, vote_b })
    }

    /// Get the votes.
    pub fn votes(&self) -> (r: (&Vote, &Vote))
        ensures
            (*r.0, *r.1) == self.spec_votes(),
    {
        (&self.vote_a, &self.vote_b)
    }
}

/// Conflicting headers evidence: two signed headers for the same height.
#[derive(Clone, Copy, Debug, PartialEq, Eq, Structural)]
pub struct ConflictingHeadersEvidence {
    /// The first header.
    pub h1: SignedHeader,
    /// The second header.
    pub h2: SignedHeader,
}

impl ConflictingHeadersEvidence {
    /// Bundle two headers as evidence of a conflict.
    pub fn new(h1: SignedHeader, h2: SignedHeader) -> (r: Self)
        ensures
            r == (ConflictingHeadersEvidence { h1, h2 }),
    {
        Self { h1, h2 }
    }
}

/// A wrapper for a list of evidence.
#[derive(Clone, Debug, PartialEq)]
pub struct Data {
    evidence: Option<Vec<Evidence>>,
}

impl Data {
    /// The evidence items as a sequence.
    pub closed spec fn list(&self) -> Seq<Evidence> {
        match self.evidence {
            Option::Some(v) => v@,
            Option::None => Seq::empty(),
        }
    }

    /// Create a new evidence data collection.
    pub fn new(evidence: Vec<Evidence>) -> (d: Data)
        ensures
            d.list() == evidence@,
    {
        Data { evidence: Some(evidence) }
    }

    /// Convert this evidence data into a vector.
    pub fn into_vec(self) -> (v: Vec<Evidence>)
        ensures
            v@ == self.list(),
    {
        match self.evidence {
            Some(v) => v,
            None => Vec::new(),
        }
    }

    /// The evidence items, in order, as a fresh vector.
    pub fn iter(&self) -> (v: Vec<Evidence>)
        ensures
            v@ == self.list(),
    {
        let mut out: Vec<Evidence> = Vec::new();
        match &self.evidence {
            Some(items) => {
                let mut i: usize = 0;
                while i < items.len()
                    invariant
                        i <= items.len(),
                        out@ =~= items@.take(i as int),
                    decreases items.len() - i,
                {
                    out.push(items[i]);
                    i = i + 1;
                }
                assert(out@ =~= items@);
            },
            None => {},
        }
        out
    }
}

impl Default for Data {
    /// An empty evidence collection.
    fn default() -> (d: Data)
        ensures
            d.list() == Seq::<Evidence>::empty(),
    {
        Data { evidence: None }
    }
}

/// Evidence collection parameters.
#[derive(Clone, Copy, Debug, PartialEq, Eq, Structural)]
pub struct Params {
    /// Maximum allowed age for evidence to be collected, in blocks.
    pub max_age_num_blocks: u64,
    /// Maximum allowed age for evidence to be collected, as a duration.
    pub max_age_duration: Duration,
}

/// A span of time: whole seconds and a sub-second remainder in nanoseconds.
#[derive(Clone, Copy, Debug, PartialEq, Eq, Structural)]
pub struct Duration {
    /// Whole seconds.
    pub secs: u64,
    /// Nanoseconds below one second.
    pub nanos: u32,
}

} // verus!
