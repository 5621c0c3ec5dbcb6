use vstd::prelude::*;

verus! {

/// A fixed-size 256-bit digest, held as four 64-bit words.
#[derive(Clone, Copy, Debug, PartialEq, Eq, Structural)]
pub struct Digest(pub u64, pub u64, pub u64, pub u64);

impl Digest {
    /// The all-zero digest, used as the parent of a genesis header.
    pub fn zero() -> (r: Digest)
        ensures
            r == Digest(0, 0, 0, 0),
    {
        Digest(0, 0, 0, 0)
    }
}

/// Evidence of quorum agreement: the validator set that signed, and the
/// voting power of the signatures that were collected.
#[derive(Clone, Copy, Debug, PartialEq, Eq, Structural)]
pub struct Commit {
    pub validator_set: Digest,
    pub signed_power: u64,
}

/// A validator set as seen by the light client: its digest and the total
/// voting power of its members.
#[derive(Clone, Copy, Debug, PartialEq, Eq, Structural)]
pub struct ValidatorSet {
    pub hash: Digest,
    pub total_power: u64,
}

/// One position of the header chain.
#[derive(Clone, Copy, Debug, PartialEq, Eq, Structural)]
pub struct Header {
    pub height: u64,
    pub hash: Digest,
    pub previous_hash: Digest,
    pub timestamp: u64,
    pub data_root: Digest,
    pub commit: Commit,
}

/// Content address of one share of the erasure-coded data square: its
/// coordinates and the data root of the header it belongs to.
#[derive(Clone, Copy, Debug, PartialEq, Eq, Structural)]
pub struct Cid {
    pub data_root: Digest,
    pub row: u64,
    pub col: u64,
}

/// Mathematical form of the sampling outcome recorded for one height.
pub struct MetadataView {
    pub accepted: bool,
    pub cids: Seq<Cid>,
}

/// Sampling outcome recorded for one height: the last verdict and every
/// identifier attempted so far.
#[derive(Debug)]
pub struct SamplingMetadata {
    pub accepted: bool,
    pub cids: Vec<Cid>,
}

impl View for SamplingMetadata {
    type V = MetadataView;

    open spec fn view(&self) -> MetadataView {
        MetadataView { accepted: self.accepted, cids: self.cids@ }
    }
}

/// A copy of a list of identifiers.
pub fn copy_cids(v: &Vec<Cid>) -> (r: Vec<Cid>)
    ensures
        r@ == v@,
{
    let mut r: Vec<Cid> = Vec::new();
    let mut i: usize = 0;
    while i < v.len()
        invariant
            i <= v@.len(),
            r@ == v@.subrange(0, i as int),
        decreases v@.len() - i,
    {
        r.push(v[i]);
        i = i + 1;
        assert(r@ =~= v@.subrange(0, i as int));
    }
    assert(r@ =~= v@);
    r
}

impl SamplingMetadata {
    pub fn duplicate(&self) -> (r: SamplingMetadata)
        ensures
            r@ == self@,
    {
        SamplingMetadata { accepted: self.accepted, cids: copy_cids(&self.cids) }
    }
}

} // verus!
