//! The pool of maps a vote is held over.

use vstd::prelude::*;

use crate::error::Error;
use crate::queue::lemma_remove;

verus! {

/// Most maps a pool holds: one vote letter each.
pub const POOL_CAPACITY: usize = 26;

/// The insertion-ordered set of map names offered in a vote.
pub struct MapPool {
    pub names: Vec<String>,
}

/// The names' character sequences, in order.
pub open spec fn name_views(names: Seq<String>) -> Seq<Seq<char>> {
    names.map_values(|n: String| n@)
}

impl View for MapPool {
    type V = Seq<Seq<char>>;

    open spec fn view(&self) -> Seq<Seq<char>> {
        name_views(self.names@)
    }
}

impl MapPool {
    /// At most twenty-six names, none twice.
    pub open spec fn wf(&self) -> bool {
        &&& self@.len() <= POOL_CAPACITY
        &&& self@.no_duplicates()
    }

    pub fn new() -> (r: MapPool)
        ensures
            r@ == Seq::<Seq<char>>::empty(),
            r.wf(),
    {
        MapPool { names: Vec::new() }
    }

    /// A pool of the given names, or `None` if they are more than twenty-six
    /// or one of them is given twice.
    pub fn from_names(names: Vec<String>) -> (r: Option<MapPool>)
        ensures
            r is Some <==> name_views(names@).len() <= POOL_CAPACITY && name_views(
                names@,
            ).no_duplicates(),
            r matches Some(p) ==> p@ == name_views(names@) && p.wf(),
    {
        let mut pool = MapPool::new();
        let mut i: usize = 0;
        while i < names.len()
            invariant
                i <= names@.len(),
                pool.wf(),
                pool@ == name_views(names@).subrange(0, i as int),
            decreases names@.len() - i,
        {
            let ghost before = pool@;
            match pool.add(names[i].clone()) {
                Ok(()) => {},
                Err(_) => {
                    proof {
                        let all = name_views(names@);
                        if before.len() >= POOL_CAPACITY {
                            assert(all.len() > POOL_CAPACITY);
                        } else {
                            let k = before.index_of(names@[i as int]@);
                            before.index_of_first_ensures(names@[i as int]@);
                            assert(all[k] == all[i as int]);
                        }
                    }
                    return None;
                },
            }
            assert(pool@ =~= name_views(names@).subrange(0, i + 1));
            i = i + 1;
        }
        assert(pool@ =~= name_views(names@));
        Some(pool)
    }

    pub fn len(&self) -> (r: usize)
        ensures
            r == self@.len(),
    {
        self.names.len()
    }

    /// Where `name` stands in the pool, if it is there.
    pub fn position(&self, name: &String) -> (r: Option<usize>)
        ensures
            match r {
                Some(i) => i < self@.len() && self@[i as int] == name@,
                None => !self@.contains(name@),
            },
    {
        let mut i: usize = 0;
        while i < self.names.len()
            invariant
                i <= self@.len(),
                forall|k: int| 0 <= k < i ==> self@[k] != name@,
            decreases self@.len() - i,
        {
            if self.names[i] == *name {
                return Some(i);
            }
            i = i + 1;
        }
        None
    }

    /// Appends `name`. A full pool is refused first, then a name that is
    /// already there.
    pub fn add(&mut self, name: String) -> (r: Result<(), Error>)
        requires
            old(self).wf(),
        ensures
            final(self).wf(),
            old(self)@.len() >= POOL_CAPACITY ==> r == Err::<(), Error>(Error::PoolFull),
            old(self)@.len() < POOL_CAPACITY && old(self)@.contains(name@) ==> r == Err::<
                (),
                Error,
            >(Error::DuplicateMap),
            r is Ok <==> old(self)@.len() < POOL_CAPACITY && !old(self)@.contains(name@),
            r is Ok ==> final(self)@ == old(self)@.push(name@),
            r is Err ==> *final(self) == *old(self),
    {
        if self.names.len() >= POOL_CAPACITY {
            return Err(Error::PoolFull);
        }
        if self.position(&name).is_some() {
            return Err(Error::DuplicateMap);
        }
        let ghost s = self@;
        self.names.push(name);
        assert(self@ =~= s.push(name@));
        Ok(())
    }

    /// Takes `name` out of the pool, keeping the others in order.
    pub fn remove(&mut self, name: &String) -> (r: Result<(), Error>)
        requires
            old(self).wf(),
        ensures
            final(self).wf(),
            r is Err <==> !old(self)@.contains(name@),
            r is Err ==> r == Err::<(), Error>(Error::MapNotFound) && *final(self) == *old(self),
            r is Ok ==> final(self)@ == old(self)@.remove(old(self)@.index_of(name@)),
            r is Ok ==> !final(self)@.contains(name@),
    {
        match self.position(name) {
            None => Err(Error::MapNotFound),
            Some(i) => {
                let ghost s = self@;
                proof {
                    s.index_of_first_ensures(name@);
                    assert(s.index_of(name@) == i) by {
                        if s.index_of(name@) != i {
                            assert(s[s.index_of(name@)] == s[i as int]);
                        }
                    }
                }
                self.names.remove(i);
                assert(self@ =~= s.remove(i as int));
                proof {
                    lemma_remove(s, i as int);
                }
                Ok(())
            },
        }
    }
}

} // verus!
