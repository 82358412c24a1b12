//! A table of publish handles, one per destination address, that only grows.
use vstd::prelude::*;

verus! {

/// What an insertion does to the table's contents: a handle is added for an
/// address that has none, and an address that already has one keeps it.
pub open spec fn insert_absent<H>(m: Map<Seq<char>, H>, a: Seq<char>, h: H) -> Map<Seq<char>, H> {
    if m.contains_key(a) {
        m
    } else {
        m.insert(a, h)
    }
}

/// The contents after one insertion attempt for address `a` per handle in
/// `hs`, made one after another.
pub open spec fn insert_each<H>(m: Map<Seq<char>, H>, a: Seq<char>, hs: Seq<H>) -> Map<Seq<char>, H>
    decreases hs.len(),
{
    if hs.len() == 0 {
        m
    } else {
        insert_each(insert_absent(m, a, hs[0]), a, hs.drop_first())
    }
}

/// How many of those insertion attempts store their handle.
pub open spec fn stored_count<H>(m: Map<Seq<char>, H>, a: Seq<char>, hs: Seq<H>) -> nat
    decreases hs.len(),
{
    if hs.len() == 0 {
        0
    } else {
        (if m.contains_key(a) { 0nat } else { 1nat }) + stored_count(
            insert_absent(m, a, hs[0]),
            a,
            hs.drop_first(),
        )
    }
}

proof fn lemma_present_stays<H>(m: Map<Seq<char>, H>, a: Seq<char>, hs: Seq<H>)
    requires
        m.contains_key(a),
    ensures
        insert_each(m, a, hs) == m,
        stored_count(m, a, hs) == 0,
    decreases hs.len(),
{
    if hs.len() > 0 {
        lemma_present_stays(m, a, hs.drop_first());
    }
}

/// However many handles are offered for an address that has none, exactly
/// one is stored, the first, and every later offer leaves the table alone.
pub proof fn lemma_one_handle_per_address<H>(m: Map<Seq<char>, H>, a: Seq<char>, hs: Seq<H>)
    requires
        !m.contains_key(a),
        hs.len() > 0,
    ensures
        stored_count(m, a, hs) == 1,
        insert_each(m, a, hs) == m.insert(a, hs[0]),
{
    lemma_present_stays(m.insert(a, hs[0]), a, hs.drop_first());
}

/// Publish handles keyed by destination address.
pub struct PublisherTable<H> {
    entries: Vec<(String, H)>,
    contents: Ghost<Map<Seq<char>, H>>,
}

impl<H> PublisherTable<H> {
    /// The handles held, by address.
    pub closed spec fn view(&self) -> Map<Seq<char>, H> {
        self.contents@
    }

    /// Each entry agrees with the contents, and no address occurs twice.
    pub closed spec fn wf(&self) -> bool {
        &&& forall|i: int|
            0 <= i < self.entries@.len() ==> {
                &&& #[trigger] self.contents@.contains_key(self.entries@[i].0@)
                &&& self.contents@[self.entries@[i].0@] == self.entries@[i].1
            }
        &&& forall|k: Seq<char>|
            #[trigger] self.contents@.contains_key(k) ==> exists|i: int|
                0 <= i < self.entries@.len() && #[trigger] self.entries@[i].0@ == k
        &&& forall|i: int, j: int|
            0 <= i < j < self.entries@.len() ==> #[trigger] self.entries@[i].0@
                != #[trigger] self.entries@[j].0@
    }

    /// An empty table.
    pub fn new() -> (r: Self)
        ensures
            r.wf(),
            r.view() == Map::<Seq<char>, H>::empty(),
    {
        PublisherTable { entries: Vec::new(), contents: Ghost(Map::empty()) }
    }

    /// The number of addresses that have a handle.
    pub fn len(&self) -> (r: usize)
        requires
            self.wf(),
        ensures
            r == self.view().len(),
    {
        proof {
            self.lemma_len();
        }
        self.entries.len()
    }

    proof fn lemma_len(&self)
        requires
            self.wf(),
        ensures
            self.entries@.len() == self.contents@.len(),
            self.contents@.dom().finite(),
        decreases self.entries@.len(),
    {
        let keys = self.entries@.map_values(|e: (String, H)| e.0@);
        assert(keys.no_duplicates()) by {
            assert forall|i: int, j: int| 0 <= i < keys.len() && 0 <= j < keys.len() && i != j
                implies keys[i] != keys[j] by {
                if i < j {
                    assert(self.entries@[i].0@ != self.entries@[j].0@);
                } else {
                    assert(self.entries@[j].0@ != self.entries@[i].0@);
                }
            }
        }
        assert(keys.to_set() =~= self.contents@.dom()) by {
            assert forall|k: Seq<char>| keys.to_set().contains(k) <==> self.contents@.dom().contains(k) by {
                if self.contents@.contains_key(k) {
                    let i = choose|i: int| 0 <= i < self.entries@.len() && #[trigger] self.entries@[i].0@ == k;
                    assert(keys[i] == k);
                }
                if keys.to_set().contains(k) {
                    let i = choose|i: int| 0 <= i < keys.len() && keys[i] == k;
                    assert(self.contents@.contains_key(self.entries@[i].0@));
                }
            }
        }
        keys.unique_seq_to_set();
    }

    /// The position of the handle for `address`, if it has one.
    pub fn find(&self, address: &String) -> (r: Option<usize>)
        requires
            self.wf(),
        ensures
            r.is_some() == self.view().contains_key(address@),
            r matches Some(i) ==> self.has_position(i as int) && self.handle_at(i as int)
                == self.view()[address@],
    {
        let mut i: usize = 0;
        while i < self.entries.len()
            invariant
                self.wf(),
                0 <= i <= self.entries@.len(),
                forall|j: int| 0 <= j < i ==> self.entries@[j].0@ != address@,
            decreases self.entries@.len() - i,
        {
            if self.entries[i].0 == *address {
                proof {
                    assert(self.contents@.contains_key(self.entries@[i as int].0@));
                }
                return Some(i);
            }
            i = i + 1;
        }
        proof {
            if self.contents@.contains_key(address@) {
                let j = choose|j: int| 0 <= j < self.entries@.len() && #[trigger] self.entries@[j].0@ == address@;
                assert(self.entries@[j].0@ != address@);
            }
        }
        None
    }

    /// The handle stored at a position that `find` returned.
    pub closed spec fn handle_at(&self, i: int) -> H {
        self.entries@[i].1
    }

    /// Whether `i` is a position of the table.
    pub closed spec fn has_position(&self, i: int) -> bool {
        0 <= i < self.entries@.len()
    }

    /// The handle at position `i`.
    pub fn handle(&self, i: usize) -> (r: &H)
        requires
            self.has_position(i as int),
        ensures
            *r == self.handle_at(i as int),
    {
        &self.entries[i].1
    }

    /// The handle for `address`, if it has one.
    pub fn get(&self, address: &String) -> (r: Option<&H>)
        requires
            self.wf(),
        ensures
            r.is_some() == self.view().contains_key(address@),
            r matches Some(h) ==> *h == self.view()[address@],
    {
        match self.find(address) {
            Some(i) => Some(&self.entries[i].1),
            None => None,
        }
    }

    /// Stores `handle` for `address` unless the address already has one, in
    /// which case the table is left as it was and `handle` is dropped.
    /// Returns whether the handle was stored.
    pub fn insert(&mut self, address: String, handle: H) -> (r: bool)
        requires
            old(self).wf(),
        ensures
            final(self).wf(),
            r == !old(self).view().contains_key(address@),
            final(self).view() == insert_absent(old(self).view(), address@, handle),
    {
        if self.find(&address).is_some() {
            return false;
        }
        let ghost a = address@;
        let ghost old_entries = self.entries@;
        let ghost old_map = self.contents@;
        self.contents = Ghost(self.contents@.insert(a, handle));
        self.entries.push((address, handle));
        proof {
            assert(self.entries@[old_entries.len() as int].0@ == a);
            assert forall|k: Seq<char>| #[trigger] self.contents@.contains_key(k) implies exists|i: int|
                0 <= i < self.entries@.len() && #[trigger] self.entries@[i].0@ == k by {
                if k != a {
                    let i = choose|i: int| 0 <= i < old_entries.len() && #[trigger] old_entries[i].0@ == k;
                    assert(self.entries@[i] == old_entries[i]);
                } else {
                    assert(self.entries@[old_entries.len() as int].0@ == k);
                }
            }
            assert forall|i: int| 0 <= i < self.entries@.len() implies {
                &&& #[trigger] self.contents@.contains_key(self.entries@[i].0@)
                &&& self.contents@[self.entries@[i].0@] == self.entries@[i].1
            } by {
                if i < old_entries.len() {
                    assert(self.entries@[i] == old_entries[i]);
                    assert(old_map.contains_key(old_entries[i].0@));
                }
            }
            assert forall|i: int, j: int| 0 <= i < j < self.entries@.len() implies
                #[trigger] self.entries@[i].0@ != #[trigger] self.entries@[j].0@ by {
                assert(self.entries@[i] == old_entries[i]);
                if j < old_entries.len() {
                    assert(self.entries@[j] == old_entries[j]);
                } else {
                    assert(old_map.contains_key(old_entries[i].0@));
                }
            }
        }
        true
    }
}

} // verus!
