use vstd::prelude::*;

use crate::store::{InMemoryStore, StoreError};
use crate::sync_loop::doubled;
use crate::sync_loop::backoff_delay;
use crate::types::{Cid, Digest};

verus! {

pub open spec fn lcg_next(s: u64) -> u64 {
    s.wrapping_mul(6364136223846793005u64).wrapping_add(1442695040888963407u64)
}

/// The generator's state after `i + 1` steps from `seed`.
pub open spec fn lcg_state(seed: u64, i: nat) -> u64
    decreases i,
{
    if i == 0 {
        lcg_next(seed)
    } else {
        lcg_next(lcg_state(seed, (i - 1) as nat))
    }
}

pub open spec fn seed_of(root: Digest) -> u64 {
    root.0 ^ root.1 ^ root.2 ^ root.3
}

/// The `i`-th share chosen for a square of side `width` with data root `root`.
pub open spec fn coordinate(root: Digest, width: u64, i: nat) -> Cid
    recommends
        width > 0,
{
    let s = lcg_state(seed_of(root), i);
    Cid { data_root: root, row: s % width, col: (s / width) % width }
}

/// The first `n` shares chosen for `root`; the same root always gives the
/// same shares.
pub open spec fn planned_samples(root: Digest, width: u64, n: nat) -> Seq<Cid> {
    Seq::new(n, |i: int| coordinate(root, width, i as nat))
}

/// The entries of `planned` that are not in `already`, each once, in order.
pub open spec fn fresh_samples(planned: Seq<Cid>, already: Seq<Cid>) -> Seq<Cid>
    decreases planned.len(),
{
    if planned.len() == 0 {
        Seq::empty()
    } else {
        let m = fresh_samples(planned.drop_last(), already);
        if already.contains(planned.last()) || m.contains(planned.last()) {
            m
        } else {
            m.push(planned.last())
        }
    }
}

fn contains_cid(v: &Vec<Cid>, c: Cid) -> (r: bool)
    ensures
        r == v@.contains(c),
{
    let mut i: usize = 0;
    while i < v.len()
        invariant
            i <= v@.len(),
            forall|k: int| 0 <= k < i ==> v@[k] != c,
        decreases v@.len() - i,
    {
        if v[i] == c {
            assert(v@[i as int] == c);
            return true;
        }
        i = i + 1;
    }
    false
}

/// Derives `n` share coordinates from `data_root` and drops those already
/// attempted, so that a later round for the same height asks only for what
/// is new.
pub fn sample_coordinates(data_root: Digest, width: u64, n: u64, already: &Vec<Cid>) -> (r: Vec<Cid>)
    requires
        width > 0,
    ensures
        r@ == fresh_samples(planned_samples(data_root, width, n as nat), already@),
{
    let seed = data_root.0 ^ data_root.1 ^ data_root.2 ^ data_root.3;
    let mut state = seed;
    let mut r: Vec<Cid> = Vec::new();
    let mut i: u64 = 0;
    while i < n
        invariant
            i <= n,
            width > 0,
            seed == seed_of(data_root),
            i == 0 ==> state == seed,
            i > 0 ==> state == lcg_state(seed, (i - 1) as nat),
            r@ == fresh_samples(planned_samples(data_root, width, i as nat), already@),
        decreases n - i,
    {
        state = state.wrapping_mul(6364136223846793005u64).wrapping_add(1442695040888963407u64);
        let c = Cid { data_root, row: state % width, col: (state / width) % width };
        let ghost prev = planned_samples(data_root, width, i as nat);
        let ghost next = planned_samples(data_root, width, (i + 1) as nat);
        proof {
            assert(next.drop_last() =~= prev);
            assert(next.last() == c);
        }
        if !contains_cid(already, c) && !contains_cid(&r, c) {
            r.push(c);
        }
        i = i + 1;
    }
    r
}

/// The result of fetching and checking one share.
#[derive(Debug, Clone, Copy, PartialEq, Eq, Structural)]
pub enum SampleOutcome {
    Verified,
    ProofInvalid,
    FetchFailed,
}

/// What one sampling round concluded about a height.
#[derive(Debug, Clone, Copy, PartialEq, Eq, Structural)]
pub enum SamplingVerdict {
    Accepted,
    Rejected,
    Errored,
}

pub open spec fn round_verdict(outcomes: Seq<SampleOutcome>) -> SamplingVerdict {
    if outcomes.contains(SampleOutcome::ProofInvalid) {
        SamplingVerdict::Rejected
    } else if forall|i: int| 0 <= i < outcomes.len() ==> outcomes[i] == SampleOutcome::Verified {
        SamplingVerdict::Accepted
    } else {
        SamplingVerdict::Errored
    }
}

/// Judges a round: one invalid proof rejects the height, all shares
/// verified accept it, and anything else calls for another attempt.
pub fn evaluate_samples(outcomes: &Vec<SampleOutcome>) -> (r: SamplingVerdict)
    ensures
        r == round_verdict(outcomes@),
{
    let mut all_verified = true;
    let mut i: usize = 0;
    while i < outcomes.len()
        invariant
            i <= outcomes@.len(),
            forall|k: int| 0 <= k < i ==> outcomes@[k] != SampleOutcome::ProofInvalid,
            all_verified <==> forall|k: int| 0 <= k < i ==> outcomes@[k] == SampleOutcome::Verified,
        decreases outcomes@.len() - i,
    {
        match outcomes[i] {
            SampleOutcome::ProofInvalid => {
                assert(outcomes@[i as int] == SampleOutcome::ProofInvalid);
                return SamplingVerdict::Rejected;
            },
            SampleOutcome::Verified => {},
            SampleOutcome::FetchFailed => {
                all_verified = false;
            },
        }
        i = i + 1;
    }
    if all_verified {
        SamplingVerdict::Accepted
    } else {
        SamplingVerdict::Errored
    }
}

/// What the sampler does with a height after a round.
#[derive(Debug, Clone, Copy, PartialEq, Eq, Structural)]
pub enum SamplerAction {
    /// The verdict was recorded; `next` is the next unsampled height.
    Recorded { accepted: bool, next: Option<u64> },
    /// Sample the height again after `delay`.
    Retry { delay: u64 },
    /// Attempts are exhausted: recorded as not accepted and reported as a
    /// persistent sampling failure; the chain goes on regardless.
    GaveUp { next: Option<u64> },
}

/// Tunables of the sampler.
#[derive(Debug, Clone, Copy, PartialEq, Eq, Structural)]
pub struct SamplerConfig {
    pub max_attempts: u32,
    pub backoff_base: u64,
    pub backoff_cap: u64,
}

/// Ends a round for `height`: judges the outcomes of the identifiers in
/// `attempted`, records the verdict when there is one (or when attempts
/// are exhausted), and otherwise asks for a retry with backoff.
pub fn finish_round(
    store: &mut InMemoryStore,
    height: u64,
    attempted: Vec<Cid>,
    outcomes: &Vec<SampleOutcome>,
    attempt: u32,
    cfg: &SamplerConfig,
) -> (r: Result<SamplerAction, StoreError>)
    requires
        old(store).wf(),
    ensures
        final(store).wf(),
        final(store)@.headers == old(store)@.headers,
        !old(store)@.holds_height(height as int) ==> r == Err::<SamplerAction, StoreError>(StoreError::NotFound)
            && final(store)@ == old(store)@,
        old(store)@.holds_height(height as int) ==> match round_verdict(outcomes@) {
            SamplingVerdict::Accepted => r matches Ok(SamplerAction::Recorded { accepted: true, .. }),
            SamplingVerdict::Rejected => r matches Ok(SamplerAction::Recorded { accepted: false, .. }),
            SamplingVerdict::Errored => if attempt + 1 < cfg.max_attempts {
                &&& final(store)@ == old(store)@
                &&& r matches Ok(SamplerAction::Retry { delay })
                &&& delay as int == if doubled(cfg.backoff_base as int, attempt as nat) < cfg.backoff_cap as int {
                    doubled(cfg.backoff_base as int, attempt as nat)
                } else {
                    cfg.backoff_cap as int
                }
            } else {
                r matches Ok(SamplerAction::GaveUp { .. })
            },
        },
        match r {
            Ok(SamplerAction::Recorded { accepted, next }) => {
                &&& final(store)@.sampling == old(store)@.sampling.update(
                    height - old(store)@.genesis,
                    Some(crate::store::apply_update(old(store)@.metadata_at(height as int), accepted, attempted@)),
                )
                &&& final(store)@.is_next_unsampled(next)
            },
            Ok(SamplerAction::GaveUp { next }) => {
                &&& final(store)@.sampling == old(store)@.sampling.update(
                    height - old(store)@.genesis,
                    Some(crate::store::apply_update(old(store)@.metadata_at(height as int), false, attempted@)),
                )
                &&& final(store)@.is_next_unsampled(next)
            },
            _ => true,
        },
{
    if !store.has_at(height) {
        return Err(StoreError::NotFound);
    }
    let verdict = evaluate_samples(outcomes);
    match verdict {
        SamplingVerdict::Accepted => {
            let next = store.update_sampling_metadata(height, true, attempted)?;
            Ok(SamplerAction::Recorded { accepted: true, next })
        },
        SamplingVerdict::Rejected => {
            let next = store.update_sampling_metadata(height, false, attempted)?;
            Ok(SamplerAction::Recorded { accepted: false, next })
        },
        SamplingVerdict::Errored => {
            if (attempt as u64) + 1 < cfg.max_attempts as u64 {
                let delay = backoff_delay(cfg.backoff_base, attempt, cfg.backoff_cap);
                Ok(SamplerAction::Retry { delay })
            } else {
                let next = store.update_sampling_metadata(height, false, attempted)?;
                Ok(SamplerAction::GaveUp { next })
            }
        },
    }
}

/// Plans a round for a stored height: the shares derived from its data
/// root that earlier rounds have not attempted yet.
pub fn plan_sampling(store: &InMemoryStore, height: u64, width: u64, n: u64) -> (r: Result<Vec<Cid>, StoreError>)
    requires
        store.wf(),
        width > 0,
    ensures
        match store@.header_at(height as int) {
            None => r == Err::<Vec<Cid>, StoreError>(StoreError::NotFound),
            Some(h) => r matches Ok(v) && v@ == fresh_samples(
                planned_samples(h.data_root, width, n as nat),
                match store@.metadata_at(height as int) {
                    Some(m) => m.cids,
                    None => Seq::<Cid>::empty(),
                },
            ),
        },
{
    let header = store.get_by_height(height)?;
    let already: Vec<Cid> = match store.get_sampling_metadata(height) {
        Ok(Some(m)) => m.cids,
        _ => Vec::new(),
    };
    Ok(sample_coordinates(header.data_root, width, n, &already))
}

} // verus!
