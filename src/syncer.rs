use vstd::prelude::*;

use crate::store::{InMemoryStore, StoreError, StoreView};
use crate::types::{Digest, Header, ValidatorSet};

verus! {

/// Failures of chain extension.
#[derive(Debug, Clone, Copy, PartialEq, Eq, Structural)]
pub enum SyncerError {
    VerificationFailed,
    NoTrustedPeer,
    FetchTimeout,
    SyncStalled,
    Store(StoreError),
}

/// What the syncer trusts when it checks a header: the configured genesis
/// hash, the validator set in effect, the local time and the tolerated
/// clock drift.
#[derive(Debug, Clone, Copy, PartialEq, Eq, Structural)]
pub struct TrustAnchor {
    pub genesis_hash: Option<Digest>,
    pub validators: ValidatorSet,
    pub now: u64,
    pub max_drift: u64,
}

/// More than two thirds of the set's voting power signed the commit.
pub open spec fn has_quorum(h: Header, vs: ValidatorSet) -> bool {
    h.commit.validator_set == vs.hash && 3 * (h.commit.signed_power as int) > 2 * (vs.total_power as int)
}

#[verifier::opaque]
/// `h` may follow `prev` (or start the chain when `prev` is `None`).
pub open spec fn header_verifies(prev: Option<Header>, h: Header, t: TrustAnchor) -> bool {
    &&& match prev {
        Some(p) => {
            &&& h.height == p.height + 1
            &&& h.previous_hash == p.hash
            &&& h.timestamp > p.timestamp
        },
        None => match t.genesis_hash {
            Some(g) => h.hash == g,
            None => true,
        },
    }
    &&& h.timestamp <= t.now + t.max_drift
    &&& has_quorum(h, t.validators)
}

/// The header that batch entry `i` must follow.
pub open spec fn parent_in_batch(head: Option<Header>, batch: Seq<Header>, i: int) -> Option<Header> {
    if i == 0 {
        head
    } else {
        Some(batch[i - 1])
    }
}

/// Every header of `batch` verifies against the one before it, the first
/// against `head`.
pub open spec fn chain_verifies(head: Option<Header>, batch: Seq<Header>, t: TrustAnchor) -> bool {
    forall|i: int| 0 <= i < batch.len() ==> header_verifies(parent_in_batch(head, batch, i), #[trigger] batch[i], t)
}

/// Checks one header against its parent and the trust anchor.
pub fn verify_header(prev: Option<Header>, h: &Header, t: &TrustAnchor) -> (r: Result<(), SyncerError>)
    ensures
        r.is_ok() <==> header_verifies(prev, *h, *t),
        r.is_err() ==> r == Err::<(), SyncerError>(SyncerError::VerificationFailed),
{
    proof {
        reveal(header_verifies);
    }
    let linked = match prev {
        Some(p) => p.height < u64::MAX && h.height == p.height + 1 && h.previous_hash == p.hash
            && h.timestamp > p.timestamp,
        None => match t.genesis_hash {
            Some(g) => h.hash == g,
            None => true,
        },
    };
    if !linked {
        return Err(SyncerError::VerificationFailed);
    }
    if (h.timestamp as u128) > (t.now as u128) + (t.max_drift as u128) {
        return Err(SyncerError::VerificationFailed);
    }
    let signed = h.commit.signed_power as u128;
    let total = t.validators.total_power as u128;
    if h.commit.validator_set != t.validators.hash || 3 * signed <= 2 * total {
        return Err(SyncerError::VerificationFailed);
    }
    Ok(())
}

/// Checks a fetched range in order, each header against the previous one.
pub fn verify_batch(head: Option<Header>, batch: &Vec<Header>, t: &TrustAnchor) -> (r: Result<(), SyncerError>)
    ensures
        r.is_ok() <==> chain_verifies(head, batch@, *t),
        r.is_err() ==> r == Err::<(), SyncerError>(SyncerError::VerificationFailed),
{
    let mut prev = head;
    let mut i: usize = 0;
    while i < batch.len()
        invariant
            i <= batch@.len(),
            prev == parent_in_batch(head, batch@, i as int),
            forall|k: int| 0 <= k < i ==> header_verifies(parent_in_batch(head, batch@, k), #[trigger] batch@[k], *t),
        decreases batch@.len() - i,
    {
        let res = verify_header(prev, &batch[i], t);
        if res.is_err() {
            assert(!header_verifies(parent_in_batch(head, batch@, i as int), batch@[i as int], *t));
            return Err(SyncerError::VerificationFailed);
        }
        assert(header_verifies(parent_in_batch(head, batch@, i as int), batch@[i as int], *t));
        prev = Some(batch[i]);
        i = i + 1;
    }
    Ok(())
}


/// `batch` can follow the store's contents: it starts at the genesis height
/// when the store is empty, and none of its hashes is stored already or
/// repeated within it.
pub open spec fn batch_fits(v: StoreView, batch: Seq<Header>) -> bool {
    &&& (v.head().is_none() && batch.len() > 0 ==> batch[0].height == v.genesis)
    &&& forall|i: int| 0 <= i < batch.len() ==> !v.holds_hash(#[trigger] batch[i].hash)
    &&& forall|i: int, j: int| 0 <= i < j < batch.len() ==> #[trigger] batch[i].hash != #[trigger] batch[j].hash
}

pub open spec fn fresh_slots(n: nat) -> Seq<Option<crate::types::MetadataView>> {
    Seq::new(n, |i: int| None)
}

fn batch_fits_store(store: &InMemoryStore, batch: &Vec<Header>) -> (r: bool)
    requires
        store.wf(),
    ensures
        r == batch_fits(store@, batch@),
{
    if batch.len() > 0 && !store.has_at(store.genesis_height()) && batch[0].height != store.genesis_height() {
        proof {
            store.lemma_wf_valid();
        }
        return false;
    }
    proof {
        store.lemma_wf_valid();
        if store@.head().is_none() && batch@.len() > 0 {
            assert(!store@.holds_height(store@.genesis));
        }
    }
    let mut i: usize = 0;
    while i < batch.len()
        invariant
            store.wf(),
            i <= batch@.len(),
            store@.head().is_none() && batch@.len() > 0 ==> batch@[0].height == store@.genesis,
            forall|k: int| 0 <= k < i ==> !store@.holds_hash(#[trigger] batch@[k].hash),
            forall|k: int, j: int| 0 <= k < j < i ==> #[trigger] batch@[k].hash != #[trigger] batch@[j].hash,
        decreases batch@.len() - i,
    {
        if store.has(&batch[i].hash) {
            return false;
        }
        let mut j: usize = 0;
        while j < i
            invariant
                i < batch@.len(),
                j <= i,
                forall|k: int| 0 <= k < j ==> batch@[k].hash != batch@[i as int].hash,
            decreases i - j,
        {
            if batch[j].hash == batch[i].hash {
                return false;
            }
            j = j + 1;
        }
        i = i + 1;
    }
    true
}

/// Verifies a fetched range as a whole, then appends it in order. Nothing
/// is appended unless every header of the range verified and fits.
pub fn extend_with_batch(store: &mut InMemoryStore, batch: &Vec<Header>, t: &TrustAnchor) -> (r: Result<
    (),
    SyncerError,
>)
    requires
        old(store).wf(),
    ensures
        final(store).wf(),
        r.is_ok() <==> chain_verifies(old(store)@.head(), batch@, *t) && batch_fits(old(store)@, batch@),
        !chain_verifies(old(store)@.head(), batch@, *t) ==> r == Err::<(), SyncerError>(
            SyncerError::VerificationFailed,
        ),
        chain_verifies(old(store)@.head(), batch@, *t) && !batch_fits(old(store)@, batch@) ==> r == Err::<
            (),
            SyncerError,
        >(SyncerError::Store(StoreError::ConsistencyError)),
        r.is_err() ==> final(store)@ == old(store)@,
        r.is_ok() ==> final(store)@.genesis == old(store)@.genesis && final(store)@.headers == old(store)@.headers
            + batch@ && final(store)@.sampling == old(store)@.sampling + fresh_slots(batch@.len()),
{
    let head = match store.get_head() {
        Ok(h) => Some(h),
        Err(_) => None,
    };
    verify_batch(head, batch, t)?;
    if !batch_fits_store(store, batch) {
        return Err(SyncerError::Store(StoreError::ConsistencyError));
    }
    let ghost start = store@;
    proof {
        store.lemma_wf_valid();
        assert(start.headers + batch@.subrange(0, 0) =~= start.headers);
        assert(start.sampling + fresh_slots(0) =~= start.sampling);
    }
    let mut i: usize = 0;
    while i < batch.len()
        invariant
            store.wf(),
            i <= batch@.len(),
            start.valid(),
            chain_verifies(start.head(), batch@, *t),
            batch_fits(start, batch@),
            store@.genesis == start.genesis,
            store@.headers == start.headers + batch@.subrange(0, i as int),
            store@.sampling == start.sampling + fresh_slots(i as nat),
        decreases batch@.len() - i,
    {
        let ghost v = store@;
        let h = batch[i];
        proof {
            reveal(header_verifies);
            assert(header_verifies(parent_in_batch(start.head(), batch@, i as int), batch@[i as int], *t));
            if i > 0 {
                assert(v.headers.last() == batch@[i - 1]);
            } else {
                assert(v.headers == start.headers);
            }
            assert(!v.holds_hash(h.hash)) by {
                if v.holds_hash(h.hash) {
                    let k = choose|k: int| 0 <= k < v.len() && #[trigger] v.headers[k].hash == h.hash;
                    if k < start.len() {
                        assert(start.headers[k].hash == h.hash);
                        assert(start.holds_hash(batch@[i as int].hash));
                    } else {
                        assert(v.headers[k] == batch@[k - start.len()]);
                    }
                }
            }
        }
        let res = store.append(h);
        if res.is_err() {
            proof {
                assert(false);
            }
            return Err(SyncerError::Store(StoreError::ConsistencyError));
        }
        i = i + 1;
        proof {
            assert(store@.headers =~= start.headers + batch@.subrange(0, i as int));
            assert(store@.sampling =~= start.sampling + fresh_slots(i as nat));
        }
    }
    proof {
        assert(batch@.subrange(0, batch@.len() as int) =~= batch@);
    }
    Ok(())
}

} // verus!
