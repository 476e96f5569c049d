use vstd::prelude::*;

verus! {

/// A finite set of action identifiers, kept as a vector without repeats.
pub struct IdSet {
    ids: Vec<i32>,
}

impl View for IdSet {
    type V = Set<i32>;

    closed spec fn view(&self) -> Set<i32> {
        self.ids@.to_set()
    }
}

impl IdSet {
    /// The empty set.
    pub fn new() -> (r: IdSet)
        ensures
            r@ == Set::<i32>::empty(),
    {
        let r = IdSet { ids: Vec::new() };
        assert(r@ =~= Set::<i32>::empty());
        r
    }

    /// Whether `id` belongs to the set.
    pub fn contains(&self, id: i32) -> (r: bool)
        ensures
            r == self@.contains(id),
    {
        let mut i: usize = 0;
        while i < self.ids.len()
            invariant
                i <= self.ids@.len(),
                forall|j: int| 0 <= j < i ==> self.ids@[j] != id,
            decreases self.ids@.len() - i,
        {
            if self.ids[i] == id {
                assert(self.ids@.contains(id));
                return true;
            }
            i = i + 1;
        }
        assert(!self.ids@.contains(id));
        false
    }

    /// Adds `id` to the set.
    pub fn insert(&mut self, id: i32)
        ensures
            final(self)@ == old(self)@.insert(id),
    {
        if !self.contains(id) {
            let ghost before = self.ids@;
            self.ids.push(id);
            assert forall|a: i32| self.ids@.contains(a) <==> (before.contains(a) || a == id) by {
                if before.contains(a) {
                    let j = choose|j: int| 0 <= j < before.len() && before[j] == a;
                    assert(self.ids@[j] == a);
                }
                if self.ids@.contains(a) && a != id {
                    let j = choose|j: int| 0 <= j < self.ids@.len() && self.ids@[j] == a;
                    assert(j < before.len());
                    assert(before[j] == a);
                }
                if a == id {
                    assert(self.ids@[before.len() as int] == a);
                }
            }
        }
        assert(self@ =~= old(self)@.insert(id));
    }

    /// Whether the set has no element.
    pub fn is_empty(&self) -> (r: bool)
        ensures
            r == (self@ == Set::<i32>::empty()),
    {
        if self.ids.len() == 0 {
            assert(self@ =~= Set::<i32>::empty());
            true
        } else {
            assert(self@.contains(self.ids@[0]));
            false
        }
    }

    /// A separate set with the same elements.
    pub fn duplicate(&self) -> (r: IdSet)
        ensures
            r@ == self@,
    {
        let mut ids: Vec<i32> = Vec::new();
        let mut i: usize = 0;
        while i < self.ids.len()
            invariant
                i <= self.ids@.len(),
                ids@ == self.ids@.subrange(0, i as int),
            decreases self.ids@.len() - i,
        {
            ids.push(self.ids[i]);
            i = i + 1;
            assert(ids@ =~= self.ids@.subrange(0, i as int));
        }
        assert(ids@ =~= self.ids@);
        IdSet { ids }
    }

    /// The elements, as a vector.
    pub fn to_vec(&self) -> (r: Vec<i32>)
        ensures
            r@.to_set() == self@,
    {
        let d = self.duplicate();
        d.ids
    }
}

} // verus!
