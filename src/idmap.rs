//! Allocation of virtual register ids, with parameter names bound to theirs.
use vstd::prelude::*;

verus! {

broadcast use vstd::std_specs::vec::group_vec_axioms, vstd::seq::group_seq_axioms;

/// A counter of fresh ids and the ids bound to names, most recent binding last.
pub struct IdMap {
    ids: Vec<(String, usize)>,
    id_count: usize,
}

/// The id most recently bound to `key`.
pub open spec fn id_of(binds: Seq<(Seq<char>, usize)>, key: Seq<char>) -> Option<usize>
    decreases binds.len(),
{
    if binds.len() == 0 {
        None
    } else if binds.last().0 == key {
        Some(binds.last().1)
    } else {
        id_of(binds.drop_last(), key)
    }
}

impl IdMap {
    /// The bindings, oldest first.
    pub closed spec fn binds(&self) -> Seq<(Seq<char>, usize)> {
        self.ids@.map_values(|b: (String, usize)| (b.0@, b.1))
    }

    /// The next id to be handed out.
    pub closed spec fn count(&self) -> usize {
        self.id_count
    }

    pub fn new() -> (r: IdMap)
        ensures
            r.binds() == Seq::<(Seq<char>, usize)>::empty(),
            r.count() == 0,
    {
        let r = IdMap { ids: Vec::new(), id_count: 0 };
        assert(r.binds() =~= Seq::<(Seq<char>, usize)>::empty());
        r
    }

    /// The id bound to `key`, if any.
    pub fn get(&self, key: &str) -> (r: Option<usize>)
        ensures
            r == id_of(self.binds(), key@),
    {
        let k = String::from_str(key);
        let mut i: usize = self.ids.len();
        assert(self.binds().take(i as int) =~= self.binds());
        while i > 0
            invariant
                k@ == key@,
                i <= self.ids@.len(),
                id_of(self.binds(), key@) == id_of(self.binds().take(i as int), key@),
            decreases i,
        {
            let ghost pre = self.binds().take(i as int);
            assert(pre.drop_last() =~= self.binds().take(i - 1));
            if self.ids[i - 1].0 == k {
                return Some(self.ids[i - 1].1);
            }
            i = i - 1;
        }
        None
    }

    /// Binds `key` to a fresh id and returns it.
    pub fn insert(&mut self, key: String) -> (r: usize)
        requires
            old(self).count() < usize::MAX,
        ensures
            r == old(self).count(),
            final(self).count() == old(self).count() + 1,
            final(self).binds() == old(self).binds().push((key@, r)),
    {
        let id = self.id_count;
        let ghost b = self.binds();
        self.ids.push((key, id));
        self.id_count = self.id_count + 1;
        assert(self.binds() =~= b.push((key@, id)));
        id
    }

    /// Hands out a fresh id that no name is bound to.
    pub fn add(&mut self) -> (r: usize)
        requires
            old(self).count() < usize::MAX,
        ensures
            r == old(self).count(),
            final(self).count() == old(self).count() + 1,
            final(self).binds() == old(self).binds(),
    {
        let id = self.id_count;
        self.id_count = self.id_count + 1;
        id
    }

    /// The next id to be handed out.
    pub fn next_id(&self) -> (r: usize)
        ensures
            r == self.count(),
    {
        self.id_count
    }
}

} // verus!
