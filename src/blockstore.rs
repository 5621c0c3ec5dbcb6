use vstd::prelude::*;

use crate::types::Cid;

verus! {

fn copy_bytes(data: &[u8]) -> (r: Vec<u8>)
    ensures
        r@ == data@,
{
    let mut r: Vec<u8> = Vec::new();
    let mut i: usize = 0;
    while i < data.len()
        invariant
            i <= data@.len(),
            r@ == data@.subrange(0, i as int),
        decreases data@.len() - i,
    {
        r.push(data[i]);
        i = i + 1;
        assert(r@ =~= data@.subrange(0, i as int));
    }
    assert(r@ =~= data@);
    r
}

/// The local share cache of the block exchange, held in memory: content
/// keyed by identifier.
pub struct InMemoryBlockstore {
    entries: Vec<(Cid, Vec<u8>)>,
}

impl InMemoryBlockstore {
    pub closed spec fn holds(&self, c: Cid) -> bool {
        exists|i: int| 0 <= i < self.entries@.len() && (#[trigger] self.entries@[i]).0 == c
    }

    pub closed spec fn slot(&self, c: Cid) -> int {
        choose|i: int| 0 <= i < self.entries@.len() && (#[trigger] self.entries@[i]).0 == c
    }

    /// Identifiers are unique among the entries.
    pub closed spec fn wf(&self) -> bool {
        forall|i: int, j: int|
            0 <= i < j < self.entries@.len() ==> (#[trigger] self.entries@[i]).0 != (#[trigger] self.entries@[j]).0
    }
}

impl View for InMemoryBlockstore {
    type V = Map<Cid, Seq<u8>>;

    closed spec fn view(&self) -> Map<Cid, Seq<u8>> {
        Map::new(|c: Cid| self.holds(c), |c: Cid| self.entries@[self.slot(c)].1@)
    }
}

impl InMemoryBlockstore {
    pub fn new() -> (r: InMemoryBlockstore)
        ensures
            r.wf(),
            r@ == Map::<Cid, Seq<u8>>::empty(),
    {
        let r = InMemoryBlockstore { entries: Vec::new() };
        assert(r@ =~= Map::<Cid, Seq<u8>>::empty());
        r
    }

    fn find(&self, cid: &Cid) -> (r: Option<usize>)
        requires
            self.wf(),
        ensures
            match r {
                Some(i) => i < self.entries@.len() && self.entries@[i as int].0 == *cid && self.slot(*cid) == i,
                None => !self.holds(*cid),
            },
    {
        let mut i: usize = 0;
        while i < self.entries.len()
            invariant
                self.wf(),
                i <= self.entries@.len(),
                forall|k: int| 0 <= k < i ==> (#[trigger] self.entries@[k]).0 != *cid,
            decreases self.entries@.len() - i,
        {
            if self.entries[i].0 == *cid {
                assert(self.entries@[i as int].0 == *cid);
                assert(self.holds(*cid));
                let ghost j = self.slot(*cid);
                assert(self.entries@[j].0 == *cid);
                proof {
                    if j > i {
                        assert(self.entries@[i as int].0 != self.entries@[j].0);
                    }
                }
                return Some(i);
            }
            i = i + 1;
        }
        None
    }

    /// The content stored under `cid`; absence is no error.
    pub fn get(&self, cid: &Cid) -> (r: Option<Vec<u8>>)
        requires
            self.wf(),
        ensures
            match r {
                Some(v) => self@.contains_key(*cid) && self@[*cid] == v@,
                None => !self@.contains_key(*cid),
            },
    {
        match self.find(cid) {
            Some(i) => Some(self.entries[i].1.clone()),
            None => None,
        }
    }

    /// Stores `data` under `cid`, replacing what was there.
    pub fn put_keyed(&mut self, cid: &Cid, data: &[u8]) -> (r: ())
        requires
            old(self).wf(),
        ensures
            final(self).wf(),
            final(self)@ == old(self)@.insert(*cid, data@),
    {
        let ghost pre = *self;
        let bytes = copy_bytes(data);
        match self.find(cid) {
            Some(i) => {
                self.entries.set(i, (*cid, bytes));
                assert forall|c: Cid| #[trigger] self.holds(c) == pre.holds(c) by {
                    if pre.holds(c) {
                        let k = pre.slot(c);
                        if k != i {
                            assert(self.entries@[k].0 == c);
                        } else {
                            assert(self.entries@[k].0 == c);
                        }
                    }
                    if self.holds(c) {
                        let k = self.slot(c);
                        if k != i {
                            assert(pre.entries@[k].0 == c);
                        } else {
                            assert(pre.entries@[k].0 == c);
                        }
                    }
                }
                assert forall|c: Cid| self.holds(c) && c != *cid implies #[trigger] self.slot(c) == pre.slot(c) by {
                    let a = self.slot(c);
                    let b = pre.slot(c);
                    assert(self.entries@[b].0 == c);
                    if a != b {
                        if a < b {
                            assert(self.entries@[a].0 != self.entries@[b].0);
                        } else {
                            assert(self.entries@[b].0 != self.entries@[a].0);
                        }
                    }
                }
                assert(self.entries@[i as int].0 == *cid);
                assert(self@ =~= pre@.insert(*cid, data@));
            },
            None => {
                self.entries.push((*cid, bytes));
                let ghost n = pre.entries@.len() as int;
                assert(self.entries@[n].0 == *cid);
                assert(self.holds(*cid));
                assert forall|c: Cid| #[trigger] self.holds(c) == (pre.holds(c) || c == *cid) by {
                    if pre.holds(c) {
                        let k = pre.slot(c);
                        assert(self.entries@[k].0 == c);
                    }
                    if self.holds(c) && c != *cid {
                        let k = self.slot(c);
                        assert(pre.entries@[k].0 == c);
                    }
                }
                assert forall|c: Cid| self.holds(c) implies #[trigger] self.slot(c) == if c == *cid {
                    n
                } else {
                    pre.slot(c)
                } by {
                    let a = self.slot(c);
                    if c == *cid {
                        if a != n {
                            assert(pre.entries@[a].0 == c);
                        }
                    } else {
                        let b = pre.slot(c);
                        assert(self.entries@[b].0 == c);
                        if a != b {
                            if a < b {
                                assert(self.entries@[a].0 != self.entries@[b].0);
                            } else {
                                assert(self.entries@[b].0 != self.entries@[a].0);
                            }
                        }
                    }
                }
                assert(self@ =~= pre@.insert(*cid, data@));
            },
        }
    }
}

} // verus!
