use vstd::prelude::*;

verus! {

/// The ids of a sequence of registry entries, in order.
pub open spec fn ids_of<H>(s: Seq<(u32, H)>) -> Seq<u32> {
    s.map_values(|e: (u32, H)| e.0)
}

/// The set of ids of a sequence of registry entries.
pub open spec fn id_set<H>(s: Seq<(u32, H)>) -> Set<u32> {
    ids_of(s).to_set()
}

/// No id occurs twice.
pub open spec fn distinct_ids<H>(s: Seq<(u32, H)>) -> bool {
    ids_of(s).no_duplicates()
}

/// The position of the entry of `id`, where there is one.
pub open spec fn index_of<H>(s: Seq<(u32, H)>, id: u32) -> Option<int> {
    if exists|k: int| 0 <= k < s.len() && (#[trigger] s[k]).0 == id {
        Some(choose|k: int| 0 <= k < s.len() && (#[trigger] s[k]).0 == id)
    } else {
        None
    }
}

/// The ids registered after `connected` are inserted, one by one, into `start`.
pub open spec fn after_connects(start: Set<u32>, connected: Seq<u32>) -> Set<u32>
    decreases connected.len(),
{
    if connected.len() == 0 {
        start
    } else {
        after_connects(start, connected.drop_last()).insert(connected.last())
    }
}

/// The ids left after `gone` are removed, one by one, from `start`.
pub open spec fn after_disconnects(start: Set<u32>, gone: Seq<u32>) -> Set<u32>
    decreases gone.len(),
{
    if gone.len() == 0 {
        start
    } else {
        after_disconnects(start, gone.drop_last()).remove(gone.last())
    }
}

/// Where ids are distinct, the number of entries is the number of ids.
pub proof fn lemma_distinct_len<H>(s: Seq<(u32, H)>)
    requires
        distinct_ids(s),
    ensures
        s.len() == id_set(s).len(),
{
    ids_of(s).unique_seq_to_set();
}

proof fn lemma_connects_members(start: Set<u32>, connected: Seq<u32>, x: u32)
    ensures
        after_connects(start, connected).contains(x) <==> (start.contains(x) || connected.contains(x)),
    decreases connected.len(),
{
    if connected.len() > 0 {
        let init = connected.drop_last();
        lemma_connects_members(start, init, x);
        if init.contains(x) {
            let k = choose|k: int| 0 <= k < init.len() && init[k] == x;
            assert(connected[k] == x);
        }
        if connected.contains(x) && x != connected.last() {
            let k = choose|k: int| 0 <= k < connected.len() && connected[k] == x;
            assert(init[k] == x);
        }
    }
}

proof fn lemma_connects_len(connected: Seq<u32>)
    requires
        connected.no_duplicates(),
    ensures
        after_connects(Set::empty(), connected).finite(),
        after_connects(Set::empty(), connected).len() == connected.len(),
    decreases connected.len(),
{
    if connected.len() > 0 {
        let init = connected.drop_last();
        assert(init.no_duplicates());
        lemma_connects_len(init);
        lemma_connects_members(Set::empty(), init, connected.last());
        assert(!init.contains(connected.last()));
    }
}

proof fn lemma_disconnects(start: Set<u32>, gone: Seq<u32>)
    requires
        start.finite(),
        gone.no_duplicates(),
        forall|x: u32| gone.contains(x) ==> start.contains(x),
    ensures
        after_disconnects(start, gone).finite(),
        after_disconnects(start, gone).len() == start.len() - gone.len(),
        forall|x: u32| after_disconnects(start, gone).contains(x) <==> (start.contains(x) && !gone.contains(x)),
    decreases gone.len(),
{
    if gone.len() > 0 {
        let init = gone.drop_last();
        assert(init.no_duplicates());
        assert forall|x: u32| init.contains(x) implies start.contains(x) by {
            let k = choose|k: int| 0 <= k < init.len() && init[k] == x;
            assert(gone[k] == x);
        }
        lemma_disconnects(start, init);
        assert(gone.contains(gone.last()));
        assert(!init.contains(gone.last()));
        assert forall|x: u32| after_disconnects(start, gone).contains(x) <==> (start.contains(x) && !gone.contains(x)) by {
            if init.contains(x) {
                let k = choose|k: int| 0 <= k < init.len() && init[k] == x;
                assert(gone[k] == x);
            }
            if gone.contains(x) && x != gone.last() {
                let k = choose|k: int| 0 <= k < gone.len() && gone[k] == x;
                assert(init[k] == x);
            }
        }
    }
}

/// After `connected.len()` admissions with distinct fresh ids and then
/// `gone.len()` disconnects of distinct admitted ids, the registry holds
/// exactly the other ids, as many as admissions minus disconnects.
pub proof fn lemma_registry_count(connected: Seq<u32>, gone: Seq<u32>)
    requires
        connected.no_duplicates(),
        gone.no_duplicates(),
        forall|x: u32| gone.contains(x) ==> connected.contains(x),
    ensures
        after_disconnects(after_connects(Set::empty(), connected), gone).len() == connected.len() - gone.len(),
        forall|x: u32|
            after_disconnects(after_connects(Set::empty(), connected), gone).contains(x) <==> (connected.contains(x)
                && !gone.contains(x)),
{
    let start = after_connects(Set::empty(), connected);
    lemma_connects_len(connected);
    assert forall|x: u32| start.contains(x) <==> connected.contains(x) by {
        lemma_connects_members(Set::empty(), connected, x);
    }
    lemma_disconnects(start, gone);
}

/// A registry whose ids are those left after those connects and disconnects
/// holds exactly as many entries as connects minus disconnects.
pub proof fn lemma_registry_size<H>(entries: Seq<(u32, H)>, connected: Seq<u32>, gone: Seq<u32>)
    requires
        distinct_ids(entries),
        connected.no_duplicates(),
        gone.no_duplicates(),
        forall|x: u32| gone.contains(x) ==> connected.contains(x),
        id_set(entries) == after_disconnects(after_connects(Set::empty(), connected), gone),
    ensures
        entries.len() == connected.len() - gone.len(),
{
    lemma_distinct_len(entries);
    lemma_registry_count(connected, gone);
}

/// The live connections, each under its unique id, in the order they were registered.
pub struct Registry<H> {
    entries: Vec<(u32, H)>,
}

impl<H> View for Registry<H> {
    type V = Seq<(u32, H)>;

    closed spec fn view(&self) -> Seq<(u32, H)> {
        self.entries@
    }
}

impl<H> Registry<H> {
    /// An empty registry.
    pub fn new() -> (r: Registry<H>)
        ensures
            r@.len() == 0,
            distinct_ids(r@),
    {
        Registry { entries: Vec::new() }
    }

    /// Number of registered connections.
    pub fn len(&self) -> (r: usize)
        ensures
            r == self@.len(),
    {
        self.entries.len()
    }

    fn find(&self, id: u32) -> (r: Option<usize>)
        ensures
            match r {
                Some(k) => k < self@.len() && self@[k as int].0 == id,
                None => forall|k: int| 0 <= k < self@.len() ==> (#[trigger] self@[k]).0 != id,
            },
    {
        let mut i: usize = 0;
        while i < self.entries.len()
            invariant
                i <= self@.len(),
                self@ == self.entries@,
                forall|k: int| 0 <= k < i ==> (#[trigger] self@[k]).0 != id,
            decreases self@.len() - i,
        {
            if self.entries[i].0 == id {
                return Some(i);
            }
            i = i + 1;
        }
        None
    }

    /// Whether `id` is registered.
    pub fn contains(&self, id: u32) -> (r: bool)
        ensures
            r == id_set(self@).contains(id),
    {
        let found = self.find(id);
        proof {
            match found {
                Some(k) => {
                    assert(ids_of(self@)[k as int] == id);
                },
                None => {
                    if ids_of(self@).contains(id) {
                        let j = choose|j: int| 0 <= j < ids_of(self@).len() && ids_of(self@)[j] == id;
                        assert(self@[j].0 == id);
                    }
                },
            }
        }
        found.is_some()
    }

    /// Registers a connection under an id not in use.
    pub fn insert(&mut self, id: u32, handle: H)
        requires
            distinct_ids(old(self)@),
            !id_set(old(self)@).contains(id),
        ensures
            final(self)@ == old(self)@.push((id, handle)),
            id_set(final(self)@) == id_set(old(self)@).insert(id),
            distinct_ids(final(self)@),
            final(self)@.len() == old(self)@.len() + 1,
    {
        let ghost s = self@;
        self.entries.push((id, handle));
        proof {
            let t = s.push((id, handle));
            assert(ids_of(t) =~= ids_of(s).push(id));
            assert(id_set(t) =~= id_set(s).insert(id)) by {
                assert(ids_of(s).push(id) =~= ids_of(s) + seq![id]);
                Seq::<u32>::lemma_to_set_insert_commutes(ids_of(s), id);
            }
        }
    }

    /// Removes the connection of `id`, if it is registered.
    pub fn remove(&mut self, id: u32)
        requires
            distinct_ids(old(self)@),
        ensures
            match index_of(old(self)@, id) {
                Some(k) => final(self)@ == old(self)@.remove(k),
                None => final(self)@ == old(self)@,
            },
            id_set(final(self)@) == id_set(old(self)@).remove(id),
            distinct_ids(final(self)@),
            final(self)@.len() == old(self)@.len() - (if id_set(old(self)@).contains(id) { 1int } else { 0int }),
    {
        let ghost s = self@;
        match self.find(id) {
            Some(k) => {
                self.entries.remove(k);
                proof {
                    let j = index_of(s, id)->Some_0;
                    assert(ids_of(s)[j] == ids_of(s)[k as int]);
                    assert(j == k);
                    let t = s.remove(k as int);
                    assert(ids_of(t) =~= ids_of(s).remove(k as int));
                    assert(id_set(t) =~= id_set(s).remove(id)) by {
                        assert forall|x: u32| id_set(t).contains(x) <==> id_set(s).remove(id).contains(x) by {
                            if ids_of(t).contains(x) {
                                let q = choose|q: int| 0 <= q < ids_of(t).len() && ids_of(t)[q] == x;
                                if q < k { assert(ids_of(s)[q] == x); } else { assert(ids_of(s)[q + 1] == x); }
                            }
                            if ids_of(s).contains(x) && x != id {
                                let q = choose|q: int| 0 <= q < ids_of(s).len() && ids_of(s)[q] == x;
                                if q < k { assert(ids_of(t)[q] == x); } else { assert(ids_of(t)[q - 1] == x); }
                            }
                        }
                    }
                }
            },
            None => {
                proof {
                    assert(id_set(s) =~= id_set(s).remove(id));
                }
            },
        }
    }

    /// The id of the `i`-th registered connection.
    pub fn id_at(&self, i: usize) -> (r: u32)
        requires
            i < self@.len(),
        ensures
            r == self@[i as int].0,
    {
        self.entries[i].0
    }

    /// The handle of the `i`-th registered connection.
    pub fn handle_at(&self, i: usize) -> (r: &H)
        requires
            i < self@.len(),
        ensures
            *r == self@[i as int].1,
    {
        &self.entries[i].1
    }

    /// The registered ids, in registry order.
    pub fn ids(&self) -> (r: Vec<u32>)
        ensures
            r@ == ids_of(self@),
    {
        let mut out: Vec<u32> = Vec::new();
        let mut i: usize = 0;
        while i < self.entries.len()
            invariant
                i <= self@.len(),
                self@ == self.entries@,
                out@ == ids_of(self@).take(i as int),
            decreases self@.len() - i,
        {
            out.push(self.entries[i].0);
            proof {
                assert(ids_of(self@).take(i + 1) =~= ids_of(self@).take(i as int).push(self@[i as int].0));
            }
            i = i + 1;
        }
        proof {
            assert(ids_of(self@).take(self@.len() as int) =~= ids_of(self@));
        }
        out
    }
}

/// Hands out connection ids in increasing order, so that none is used twice.
pub struct IdCounter {
    pub last: u32,
}

impl IdCounter {
    /// A counter whose first id is 1.
    pub fn new() -> (r: IdCounter)
        ensures
            r.last == 0,
    {
        IdCounter { last: 0 }
    }

    /// The next id, greater than every id handed out before; `None` once ids are used up.
    pub fn next_id(&mut self) -> (r: Option<u32>)
        ensures
            old(self).last < u32::MAX ==> (r == Some((old(self).last + 1) as u32) && final(self).last == old(self).last + 1),
            old(self).last == u32::MAX ==> (r is None && final(self).last == old(self).last),
    {
        if self.last < u32::MAX {
            self.last = self.last + 1;
            Some(self.last)
        } else {
            None
        }
    }
}

} // verus!
