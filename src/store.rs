use vstd::prelude::*;

use crate::types::{copy_cids, Cid, Digest, Header, MetadataView, SamplingMetadata};

verus! {

/// Failures of the header store.
#[derive(Debug, Clone, Copy, PartialEq, Eq, Structural)]
pub enum StoreError {
    NotFound,
    EmptyStore,
    ConsistencyError,
    StorageIoError,
}

/// Mathematical form of a header store: the header at height
/// `genesis + i` is `headers[i]`, and `sampling[i]` is what was recorded
/// for that height, if anything.
pub struct StoreView {
    pub genesis: int,
    pub headers: Seq<Header>,
    pub sampling: Seq<Option<MetadataView>>,
}

/// The identifiers of `old` followed by those of `new` that are not yet
/// there, in order of first appearance.
pub open spec fn merge_ids(old: Seq<Cid>, new: Seq<Cid>) -> Seq<Cid>
    decreases new.len(),
{
    if new.len() == 0 {
        old
    } else {
        let m = merge_ids(old, new.drop_last());
        if m.contains(new.last()) {
            m
        } else {
            m.push(new.last())
        }
    }
}

/// What one call of `update_sampling_metadata` makes of the record of a height.
pub open spec fn apply_update(m: Option<MetadataView>, accepted: bool, ids: Seq<Cid>) -> MetadataView {
    let prior = match m {
        Some(v) => v.cids,
        None => Seq::<Cid>::empty(),
    };
    MetadataView { accepted, cids: merge_ids(prior, ids) }
}

impl StoreView {
    pub open spec fn len(self) -> int {
        self.headers.len() as int
    }

    /// Heights are contiguous from genesis, each header links to its parent,
    /// hashes are unique, and there is one sampling slot per header.
    pub open spec fn valid(self) -> bool {
        &&& 0 <= self.genesis
        &&& self.genesis + self.len() <= u64::MAX + 1
        &&& self.sampling.len() == self.headers.len()
        &&& forall|i: int| 0 <= i < self.len() ==> #[trigger] self.headers[i].height == self.genesis + i
        &&& forall|i: int|
            0 < i < self.len() ==> #[trigger] self.headers[i].previous_hash == self.headers[i - 1].hash
        &&& forall|i: int, j: int|
            0 <= i < j < self.len() ==> #[trigger] self.headers[i].hash != #[trigger] self.headers[j].hash
    }

    pub open spec fn head(self) -> Option<Header> {
        if self.len() == 0 {
            None
        } else {
            Some(self.headers.last())
        }
    }

    pub open spec fn holds_height(self, height: int) -> bool {
        self.genesis <= height < self.genesis + self.len()
    }

    pub open spec fn header_at(self, height: int) -> Option<Header> {
        if self.holds_height(height) {
            Some(self.headers[height - self.genesis])
        } else {
            None
        }
    }

    pub open spec fn holds_hash(self, hash: Digest) -> bool {
        exists|i: int| 0 <= i < self.len() && #[trigger] self.headers[i].hash == hash
    }

    pub open spec fn header_with_hash(self, hash: Digest) -> Option<Header> {
        if self.holds_hash(hash) {
            let i = choose|i: int| 0 <= i < self.len() && #[trigger] self.headers[i].hash == hash;
            Some(self.headers[i])
        } else {
            None
        }
    }

    pub open spec fn metadata_at(self, height: int) -> Option<MetadataView> {
        if self.holds_height(height) {
            self.sampling[height - self.genesis]
        } else {
            None
        }
    }

    /// The conditions under which `header` extends the chain.
    pub open spec fn can_append(self, header: Header) -> bool {
        match self.head() {
            None => header.height == self.genesis,
            Some(h) => {
                &&& header.height == h.height + 1
                &&& header.previous_hash == h.hash
                &&& !self.holds_hash(header.hash)
            },
        }
    }

    /// `r` is the smallest stored height without sampling metadata, or
    /// `None` when every stored height has some.
    pub open spec fn is_next_unsampled(self, r: Option<u64>) -> bool {
        match r {
            Some(h) => {
                &&& self.holds_height(h as int)
                &&& self.metadata_at(h as int).is_none()
                &&& forall|k: int| self.genesis <= k < h ==> (#[trigger] self.metadata_at(k)).is_some()
            },
            None => forall|k: int| #[trigger] self.holds_height(k) ==> self.metadata_at(k).is_some(),
        }
    }
}

/// Every identifier of `new` is present after merging it into `old`.
pub proof fn lemma_merge_covers(old: Seq<Cid>, new: Seq<Cid>)
    ensures
        forall|x: Cid| old.contains(x) ==> merge_ids(old, new).contains(x),
        forall|x: Cid| new.contains(x) ==> merge_ids(old, new).contains(x),
    decreases new.len(),
{
    if new.len() > 0 {
        lemma_merge_covers(old, new.drop_last());
        let m = merge_ids(old, new.drop_last());
        assert forall|x: Cid| new.contains(x) implies merge_ids(old, new).contains(x) by {
            let k = choose|k: int| 0 <= k < new.len() && new[k] == x;
            if k < new.len() - 1 {
                assert(new.drop_last()[k] == x);
                assert(new.drop_last().contains(x));
                assert(m.contains(x));
                if !m.contains(new.last()) {
                    let j = choose|j: int| 0 <= j < m.len() && m[j] == x;
                    assert(m.push(new.last())[j] == x);
                }
            } else {
                assert(x == new.last());
                if !m.contains(new.last()) {
                    assert(m.push(new.last())[m.len() as int] == x);
                }
            }
        }
        assert forall|x: Cid| old.contains(x) implies merge_ids(old, new).contains(x) by {
            if !m.contains(new.last()) {
                let k = choose|k: int| 0 <= k < m.len() && m[k] == x;
                assert(m.push(new.last())[k] == x);
            }
        }
    }
}

/// Merging identifiers that are all present already changes nothing.
pub proof fn lemma_merge_present(old: Seq<Cid>, new: Seq<Cid>)
    requires
        forall|x: Cid| new.contains(x) ==> old.contains(x),
    ensures
        merge_ids(old, new) == old,
    decreases new.len(),
{
    if new.len() > 0 {
        assert forall|x: Cid| new.drop_last().contains(x) implies old.contains(x) by {
            let k = choose|k: int| 0 <= k < new.len() - 1 && new.drop_last()[k] == x;
            assert(new[k] == x);
        }
        lemma_merge_present(old, new.drop_last());
        assert(new[new.len() - 1] == new.last());
        assert(new.contains(new.last()));
    }
}

/// Recording the same sampling outcome twice leaves the record as the
/// first call left it.
pub proof fn lemma_update_idempotent(m: Option<MetadataView>, accepted: bool, ids: Seq<Cid>)
    ensures
        apply_update(Some(apply_update(m, accepted, ids)), accepted, ids) == apply_update(m, accepted, ids),
{
    let once = apply_update(m, accepted, ids);
    let prior = match m {
        Some(v) => v.cids,
        None => Seq::<Cid>::empty(),
    };
    lemma_merge_covers(prior, ids);
    lemma_merge_present(once.cids, ids);
}

/// In a valid store, looking up a stored height and looking up the hash
/// of the header found there give the same header.
pub proof fn lemma_height_and_hash_agree(v: StoreView, height: int)
    requires
        v.valid(),
        v.holds_height(height),
    ensures
        v.header_with_hash(v.header_at(height).unwrap().hash) == v.header_at(height),
{
    let i = height - v.genesis;
    let hash = v.headers[i].hash;
    assert(v.holds_hash(hash));
    let j = choose|j: int| 0 <= j < v.len() && #[trigger] v.headers[j].hash == hash;
    if j < i {
        assert(v.headers[j].hash != v.headers[i].hash);
    } else if i < j {
        assert(v.headers[i].hash != v.headers[j].hash);
    }
}

/// In a valid non-empty store the head sits at `genesis + len - 1`: a store
/// filled from empty by `n` successful appends has its head at
/// `genesis + n - 1`.
pub proof fn lemma_head_height_counts_appends(v: StoreView)
    requires
        v.valid(),
        v.len() > 0,
    ensures
        v.head().unwrap().height == v.genesis + v.len() - 1,
{
    assert(v.headers[v.len() - 1].height == v.genesis + v.len() - 1);
}

/// A successful append moves the head to the appended header, one height up.
pub proof fn lemma_append_moves_head(v: StoreView, header: Header)
    requires
        v.valid(),
        v.can_append(header),
    ensures
        (StoreView { genesis: v.genesis, headers: v.headers.push(header), sampling: v.sampling.push(None) }).head()
            == Some(header),
        v.head().is_some() ==> header.height == v.head().unwrap().height + 1,
        v.head().is_none() ==> header.height == v.genesis,
{
}


/// A header store held in memory.
pub struct InMemoryStore {
    genesis_height: u64,
    headers: Vec<Header>,
    sampling: Vec<Option<SamplingMetadata>>,
    cursor: usize,
}

pub open spec fn meta_view(m: Option<SamplingMetadata>) -> Option<MetadataView> {
    match m {
        Some(x) => Some(x@),
        None => None,
    }
}

impl View for InMemoryStore {
    type V = StoreView;

    closed spec fn view(&self) -> StoreView {
        StoreView {
            genesis: self.genesis_height as int,
            headers: self.headers@,
            sampling: self.sampling@.map_values(|m: Option<SamplingMetadata>| meta_view(m)),
        }
    }
}

fn merge_into(acc: &mut Vec<Cid>, ids: &Vec<Cid>)
    ensures
        final(acc)@ == merge_ids(old(acc)@, ids@),
{
    let ghost start = acc@;
    let mut i: usize = 0;
    while i < ids.len()
        invariant
            i <= ids@.len(),
            acc@ == merge_ids(start, ids@.subrange(0, i as int)),
        decreases ids@.len() - i,
    {
        let id = ids[i];
        let mut present = false;
        let mut j: usize = 0;
        while j < acc.len()
            invariant
                j <= acc@.len(),
                present <==> exists|k: int| 0 <= k < j && acc@[k] == id,
            decreases acc@.len() - j,
        {
            if acc[j] == id {
                present = true;
            }
            j = j + 1;
        }
        assert(ids@.subrange(0, i + 1).drop_last() =~= ids@.subrange(0, i as int));
        if !present {
            acc.push(id);
        } else {
            let ghost k = choose|k: int| 0 <= k < acc@.len() && acc@[k] == id;
            assert(acc@.contains(id)) by {
                assert(acc@[k] == id);
            }
        }
        i = i + 1;
    }
    assert(ids@.subrange(0, ids@.len() as int) =~= ids@);
}

impl InMemoryStore {
    /// Internal invariant: the view is valid, and every height below the
    /// cursor has sampling metadata.
    pub closed spec fn wf(&self) -> bool {
        &&& self@.valid()
        &&& self.cursor <= self.headers@.len()
        &&& forall|i: int| 0 <= i < self.cursor ==> (#[trigger] self.sampling@[i]).is_some()
    }

    /// An empty store whose chain starts at `genesis_height`.
    pub fn new(genesis_height: u64) -> (r: InMemoryStore)
        ensures
            r.wf(),
            r@.genesis == genesis_height,
            r@.headers.len() == 0,
            r@.sampling.len() == 0,
    {
        let r = InMemoryStore { genesis_height, headers: Vec::new(), sampling: Vec::new(), cursor: 0 };
        assert(r@.sampling =~= Seq::<Option<MetadataView>>::empty());
        r
    }

    pub proof fn lemma_wf_valid(&self)
        requires
            self.wf(),
        ensures
            self@.valid(),
    {
    }

    pub fn genesis_height(&self) -> (r: u64)
        ensures
            r == self@.genesis,
    {
        self.genesis_height
    }

    pub fn head_height(&self) -> (r: Result<u64, StoreError>)
        requires
            self.wf(),
        ensures
            match self@.head() {
                Some(h) => r == Ok::<u64, StoreError>(h.height),
                None => r == Err::<u64, StoreError>(StoreError::EmptyStore),
            },
    {
        if self.headers.len() == 0 {
            Err(StoreError::EmptyStore)
        } else {
            Ok(self.headers[self.headers.len() - 1].height)
        }
    }

    pub fn get_head(&self) -> (r: Result<Header, StoreError>)
        requires
            self.wf(),
        ensures
            match self@.head() {
                Some(h) => r == Ok::<Header, StoreError>(h),
                None => r == Err::<Header, StoreError>(StoreError::EmptyStore),
            },
    {
        if self.headers.len() == 0 {
            Err(StoreError::EmptyStore)
        } else {
            Ok(self.headers[self.headers.len() - 1])
        }
    }

    pub fn get_by_height(&self, height: u64) -> (r: Result<Header, StoreError>)
        requires
            self.wf(),
        ensures
            match self@.header_at(height as int) {
                Some(h) => r == Ok::<Header, StoreError>(h),
                None => r == Err::<Header, StoreError>(StoreError::NotFound),
            },
    {
        if height < self.genesis_height {
            return Err(StoreError::NotFound);
        }
        let off = height - self.genesis_height;
        if off >= self.headers.len() as u64 {
            Err(StoreError::NotFound)
        } else {
            Ok(self.headers[off as usize])
        }
    }

    pub fn has_at(&self, height: u64) -> (r: bool)
        requires
            self.wf(),
        ensures
            r == self@.holds_height(height as int),
    {
        height >= self.genesis_height && ((height - self.genesis_height) < self.headers.len() as u64)
    }

    fn index_of_hash(&self, hash: &Digest) -> (r: Option<usize>)
        requires
            self.wf(),
        ensures
            match r {
                Some(i) => i < self@.len() && self@.headers[i as int].hash == *hash,
                None => !self@.holds_hash(*hash),
            },
    {
        let mut i: usize = 0;
        while i < self.headers.len()
            invariant
                i <= self.headers@.len(),
                forall|k: int| 0 <= k < i ==> self.headers@[k].hash != *hash,
            decreases self.headers@.len() - i,
        {
            if self.headers[i].hash == *hash {
                return Some(i);
            }
            i = i + 1;
        }
        None
    }

    pub fn has(&self, hash: &Digest) -> (r: bool)
        requires
            self.wf(),
        ensures
            r == self@.holds_hash(*hash),
    {
        self.index_of_hash(hash).is_some()
    }

    pub fn get_by_hash(&self, hash: &Digest) -> (r: Result<Header, StoreError>)
        requires
            self.wf(),
        ensures
            match self@.header_with_hash(*hash) {
                Some(h) => r == Ok::<Header, StoreError>(h),
                None => r == Err::<Header, StoreError>(StoreError::NotFound),
            },
    {
        match self.index_of_hash(hash) {
            Some(i) => {
                let ghost j = choose|j: int| 0 <= j < self@.len() && #[trigger] self@.headers[j].hash == *hash;
                assert(i == j);
                Ok(self.headers[i])
            },
            None => Err(StoreError::NotFound),
        }
    }

    /// Extends the chain by one header. Only linkage and contiguity are
    /// checked here; authenticity is the caller's concern.
    pub fn append_single_unchecked(&mut self, header: Header) -> (r: Result<(), StoreError>)
        requires
            old(self).wf(),
        ensures
            final(self).wf(),
            final(self)@.genesis == old(self)@.genesis,
            r.is_ok() <==> old(self)@.can_append(header),
            r.is_ok() ==> final(self)@.headers == old(self)@.headers.push(header)
                && final(self)@.sampling == old(self)@.sampling.push(None),
            r.is_err() ==> r == Err::<(), StoreError>(StoreError::ConsistencyError)
                && final(self)@ == old(self)@,
    {
        let n = self.headers.len();
        if n == 0 {
            if header.height != self.genesis_height {
                return Err(StoreError::ConsistencyError);
            }
        } else {
            let head = self.headers[n - 1];
            if head.height == u64::MAX || header.height != head.height + 1
                || header.previous_hash != head.hash {
                return Err(StoreError::ConsistencyError);
            }
            if self.index_of_hash(&header.hash).is_some() {
                return Err(StoreError::ConsistencyError);
            }
        }
        let ghost pre = self@;
        self.headers.push(header);
        self.sampling.push(None);
        assert(self@.sampling =~= pre.sampling.push(None));
        assert forall|i: int, j: int| 0 <= i < j < self@.len() implies
            #[trigger] self@.headers[i].hash != #[trigger] self@.headers[j].hash by {
            if j == n {
                assert(pre.headers[i].hash == self@.headers[i].hash);
            }
        }
        Ok(())
    }

    /// Alias of `append_single_unchecked`.
    pub fn append(&mut self, header: Header) -> (r: Result<(), StoreError>)
        requires
            old(self).wf(),
        ensures
            final(self).wf(),
            final(self)@.genesis == old(self)@.genesis,
            r.is_ok() <==> old(self)@.can_append(header),
            r.is_ok() ==> final(self)@.headers == old(self)@.headers.push(header)
                && final(self)@.sampling == old(self)@.sampling.push(None),
            r.is_err() ==> r == Err::<(), StoreError>(StoreError::ConsistencyError)
                && final(self)@ == old(self)@,
    {
        self.append_single_unchecked(header)
    }

    fn scan_unsampled(&self, from: usize) -> (r: Option<u64>)
        requires
            self.wf(),
            from <= self.cursor,
        ensures
            self@.is_next_unsampled(r),
    {
        let mut i: usize = from;
        while i < self.sampling.len()
            invariant
                self.wf(),
                from <= self.cursor,
                from <= i <= self.sampling@.len(),
                forall|k: int| 0 <= k < i ==> (#[trigger] self.sampling@[k]).is_some(),
            decreases self.sampling@.len() - i,
        {
            if self.sampling[i].is_none() {
                let r = Some(self.genesis_height + i as u64);
                assert forall|k: int| self@.genesis <= k < self.genesis_height + i implies
                    (#[trigger] self@.metadata_at(k)).is_some() by {
                    assert(self.sampling@[k - self@.genesis].is_some());
                }
                return r;
            }
            i = i + 1;
        }
        assert forall|k: int| #[trigger] self@.holds_height(k) implies self@.metadata_at(k).is_some() by {
            assert(self.sampling@[k - self@.genesis].is_some());
        }
        None
    }

    /// The smallest stored height with no sampling metadata, or `None` when
    /// sampling has caught up with the head.
    pub fn next_unsampled_height(&self) -> (r: Option<u64>)
        requires
            self.wf(),
        ensures
            self@.is_next_unsampled(r),
    {
        self.scan_unsampled(self.cursor)
    }

    /// Records a sampling outcome for a stored height: the verdict replaces
    /// the previous one and the identifiers are merged into those already
    /// attempted. Returns the next unsampled height.
    pub fn update_sampling_metadata(&mut self, height: u64, accepted: bool, cids: Vec<Cid>) -> (r: Result<
        Option<u64>,
        StoreError,
    >)
        requires
            old(self).wf(),
        ensures
            final(self).wf(),
            final(self)@.genesis == old(self)@.genesis,
            final(self)@.headers == old(self)@.headers,
            r.is_ok() <==> old(self)@.holds_height(height as int),
            r.is_err() ==> r == Err::<Option<u64>, StoreError>(StoreError::NotFound)
                && final(self)@ == old(self)@,
            r.is_ok() ==> final(self)@.sampling == old(self)@.sampling.update(
                height - old(self)@.genesis,
                Some(apply_update(old(self)@.metadata_at(height as int), accepted, cids@)),
            ),
            match r {
                Ok(next) => final(self)@.is_next_unsampled(next),
                Err(_) => true,
            },
    {
        if height < self.genesis_height || height - self.genesis_height >= self.headers.len() as u64 {
            return Err(StoreError::NotFound);
        }
        let idx = (height - self.genesis_height) as usize;
        let ghost pre = self@;
        let mut ids: Vec<Cid> = match &self.sampling[idx] {
            Some(m) => copy_cids(&m.cids),
            None => Vec::new(),
        };
        merge_into(&mut ids, &cids);
        let ghost expect = apply_update(pre.metadata_at(height as int), accepted, cids@);
        assert(ids@ == expect.cids);
        self.sampling.set(idx, Some(SamplingMetadata { accepted, cids: ids }));
        assert(self@.sampling =~= pre.sampling.update(idx as int, Some(expect)));
        let ghost after = self@;
        while self.cursor < self.sampling.len() && self.sampling[self.cursor].is_some()
            invariant
                self@ == after,
                self@.valid(),
                self.cursor <= self.headers@.len(),
                forall|i: int| 0 <= i < self.cursor ==> (#[trigger] self.sampling@[i]).is_some(),
            decreases self.sampling@.len() - self.cursor,
        {
            self.cursor = self.cursor + 1;
        }
        Ok(self.scan_unsampled(self.cursor))
    }

    pub fn get_sampling_metadata(&self, height: u64) -> (r: Result<Option<SamplingMetadata>, StoreError>)
        requires
            self.wf(),
        ensures
            match r {
                Ok(m) => meta_view(m) == self@.metadata_at(height as int),
                Err(_) => false,
            },
    {
        if height < self.genesis_height || height - self.genesis_height >= self.headers.len() as u64 {
            return Ok(None);
        }
        let idx = (height - self.genesis_height) as usize;
        match &self.sampling[idx] {
            Some(m) => Ok(Some(m.duplicate())),
            None => Ok(None),
        }
    }
}

} // verus!
