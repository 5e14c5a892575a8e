//! The running pipelines, one per connected device, keyed by device id.
use std::collections::HashMap;
use vstd::std_specs::iter::IteratorSpec;
use vstd::prelude::*;

verus! {

broadcast use vstd::std_specs::hash::group_hash_axioms;

/// The map that a sequence of entries with distinct keys stands for.
pub open spec fn entries_map<P>(s: Seq<(u32, P)>) -> Map<u32, P>
    decreases s.len(),
{
    if s.len() == 0 {
        Map::empty()
    } else {
        entries_map(s.drop_last()).insert(s.last().0, s.last().1)
    }
}

/// Whether no key occurs twice among `s`.
pub open spec fn keys_distinct<P>(s: Seq<(u32, P)>) -> bool {
    forall|i: int, j: int| 0 <= i < j < s.len() ==> (#[trigger] s[i]).0 != (#[trigger] s[j]).0
}

proof fn lemma_entries_map_dom<P>(s: Seq<(u32, P)>)
    requires
        keys_distinct(s),
    ensures
        forall|k: u32| #[trigger] entries_map(s).contains_key(k) <==> exists|i: int|
            0 <= i < s.len() && (#[trigger] s[i]).0 == k,
        forall|i: int| 0 <= i < s.len() ==> #[trigger] entries_map(s)[s[i].0] == s[i].1,
    decreases s.len(),
{
    if s.len() > 0 {
        let t = s.drop_last();
        assert(keys_distinct(t)) by {
            assert forall|i: int, j: int| 0 <= i < j < t.len() implies (#[trigger] t[i]).0 != (
            #[trigger] t[j]).0 by {
                assert(t[i] == s[i] && t[j] == s[j]);
            }
        }
        lemma_entries_map_dom(t);
        assert forall|k: u32| #[trigger] entries_map(s).contains_key(k) <==> exists|i: int|
            0 <= i < s.len() && (#[trigger] s[i]).0 == k by {
            if entries_map(s).contains_key(k) {
                if k == s.last().0 {
                    assert(s[s.len() - 1].0 == k);
                } else {
                    assert(entries_map(t).contains_key(k));
                    let i = choose|i: int| 0 <= i < t.len() && (#[trigger] t[i]).0 == k;
                    assert(s[i] == t[i]);
                }
            }
            if exists|i: int| 0 <= i < s.len() && (#[trigger] s[i]).0 == k {
                let i = choose|i: int| 0 <= i < s.len() && (#[trigger] s[i]).0 == k;
                if i < s.len() - 1 {
                    assert(t[i] == s[i]);
                    assert(entries_map(t).contains_key(k));
                }
            }
        }
        assert forall|i: int| 0 <= i < s.len() implies #[trigger] entries_map(s)[s[i].0] == s[i].1 by {
            if i < s.len() - 1 {
                assert(t[i] == s[i]);
                assert(s[i].0 != s[s.len() - 1].0);
                assert(entries_map(t)[t[i].0] == t[i].1);
            }
        }
    }
}

/// The pipelines that are running, one per device id.
pub struct PipelineStore<P> {
    map: HashMap<u32, P>,
}

impl<P> PipelineStore<P> {
    /// The pipeline of each device that has one.
    pub closed spec fn map(&self) -> Map<u32, P> {
        self.map@
    }

    /// Whether device `id` has a pipeline.
    pub fn contains(&self, id: u32) -> (b: bool)
        ensures
            b == self.map().contains_key(id),
    {
        self.map.contains_key(&id)
    }

    /// The pipeline of device `id`.
    pub fn get(&self, id: u32) -> (r: Option<&P>)
        ensures
            match r {
                Some(p) => self.map().contains_key(id) && *p == self.map()[id],
                None => !self.map().contains_key(id),
            },
    {
        self.map.get(&id)
    }

    /// Registers the pipeline of device `id`, unless the device already has
    /// one; then `p` is handed back.
    pub fn try_insert(&mut self, id: u32, p: P) -> (r: Result<(), P>)
        ensures
            old(self).map().contains_key(id) ==> r == Err::<(), P>(p) && final(self).map() == old(
                self,
            ).map(),
            !old(self).map().contains_key(id) ==> r is Ok && final(self).map() == old(
                self,
            ).map().insert(id, p),
    {
        if self.map.contains_key(&id) {
            return Err(p);
        }
        self.map.insert(id, p);
        Ok(())
    }

    /// Takes the pipeline of device `id` out of the store.
    pub fn remove(&mut self, id: u32) -> (r: Option<P>)
        ensures
            match r {
                Some(p) => old(self).map().contains_key(id) && p == old(self).map()[id],
                None => !old(self).map().contains_key(id),
            },
            final(self).map() == old(self).map().remove(id),
    {
        self.map.remove(&id)
    }

    /// Takes every pipeline out of the store, with its device id, in no
    /// particular order.
    pub fn drain(&mut self) -> (all: Vec<(u32, P)>)
        ensures
            final(self).map() == Map::<u32, P>::empty(),
            keys_distinct(all@),
            entries_map(all@) == old(self).map(),
    {
        let ghost start = self.map@;
        let ghost listed = vstd::std_specs::hash::spec_keys_iter(&self.map).remaining().unref();
        let mut ids: Vec<u32> = Vec::new();
        for k in it: self.map.keys()
            invariant
                it.seq().unref() == listed,
                ids@ == listed.take(it.index()),
        {
            ids.push(*k);
            assert(listed.take(it.index() + 1) == listed.take(it.index()).push(*k));
        }
        assert(ids@ == listed);
        assert(ids@.no_duplicates());
        assert(ids@.to_set() == start.dom());
        let mut all: Vec<(u32, P)> = Vec::new();
        let mut i: usize = 0;
        while i < ids.len()
            invariant
                i <= ids.len(),
                ids@.no_duplicates(),
                ids@.to_set() == start.dom(),
                all@.len() == i,
                forall|j: int| 0 <= j < i ==> (#[trigger] all@[j]).0 == ids@[j] && all@[j].1
                    == start[ids@[j]],
                forall|k: u32| #[trigger]
                    self.map@.contains_key(k) <==> start.contains_key(k) && !ids@.take(
                        i as int,
                    ).contains(k),
                forall|k: u32| #[trigger] self.map@.contains_key(k) ==> self.map@[k] == start[k],
            decreases ids.len() - i,
        {
            let k = ids[i];
            assert(ids@.to_set().contains(k));
            assert(!ids@.take(i as int).contains(k)) by {
                if ids@.take(i as int).contains(k) {
                    let j = choose|j: int| 0 <= j < i && ids@.take(i as int)[j] == k;
                    assert(ids@[j] == ids@[i as int]);
                }
            }
            let removed = self.map.remove(&k);
            match removed {
                Some(p) => {
                    all.push((k, p));
                },
                None => {
                    assert(false);
                },
            }
            proof {
                let done = ids@.take(i as int);
                assert(ids@.take(i + 1) == done.push(k));
                assert forall|x: u32| #[trigger] done.push(k).contains(x) <==> done.contains(x) || x
                    == k by {
                    if done.push(k).contains(x) && x != k {
                        let j = choose|j: int| 0 <= j < done.len() + 1 && done.push(k)[j] == x;
                        assert(done[j] == x);
                    }
                    if done.contains(x) {
                        let j = choose|j: int| 0 <= j < done.len() && done[j] == x;
                        assert(done.push(k)[j] == x);
                    }
                    if x == k {
                        assert(done.push(k)[done.len() as int] == x);
                    }
                }
            }
            i = i + 1;
        }
        assert(self.map@ =~= Map::<u32, P>::empty()) by {
            assert forall|k: u32| !self.map@.contains_key(k) by {
                if start.contains_key(k) {
                    assert(ids@.to_set().contains(k));
                    assert(ids@.take(i as int) == ids@);
                }
            }
        }
        assert(keys_distinct(all@)) by {
            assert forall|a: int, b: int| 0 <= a < b < all@.len() implies (#[trigger] all@[a]).0 != (
            #[trigger] all@[b]).0 by {
                assert(ids@[a] != ids@[b]);
            }
        }
        proof {
            lemma_entries_map_dom(all@);
            assert forall|k: u32| entries_map(all@).contains_key(k) <==> start.contains_key(k) by {
                if start.contains_key(k) {
                    assert(ids@.to_set().contains(k));
                    let j = choose|j: int| 0 <= j < ids@.len() && ids@[j] == k;
                    assert(all@[j].0 == k);
                }
            }
            assert forall|k: u32| #[trigger] entries_map(all@).contains_key(k) implies entries_map(
                all@,
            )[k] == start[k] by {
                let j = choose|j: int| 0 <= j < all@.len() && (#[trigger] all@[j]).0 == k;
                assert(entries_map(all@)[all@[j].0] == all@[j].1);
            }
            assert(entries_map(all@) =~= start);
        }
        all
    }

    /// The number of running pipelines.
    pub fn len(&self) -> (n: usize)
        ensures
            n == self.map().len(),
    {
        self.map.len()
    }
}

/// An empty store of pipelines.
pub fn new_pipeline_store<P>() -> (s: PipelineStore<P>)
    ensures
        s.map() == Map::<u32, P>::empty(),
{
    PipelineStore { map: HashMap::new() }
}

/// Registering a pipeline for a device that had none, and then removing
/// the device's pipeline, hands back that pipeline and leaves the store as
/// it was.
pub proof fn lemma_insert_then_remove<P>(m: Map<u32, P>, id: u32, p: P)
    requires
        !m.contains_key(id),
    ensures
        m.insert(id, p).contains_key(id),
        m.insert(id, p)[id] == p,
        m.insert(id, p).remove(id) == m,
{
    assert(m.insert(id, p).remove(id) =~= m);
}

} // verus!
