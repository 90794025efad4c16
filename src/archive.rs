//! The bounded archive of replaced parents that widens DE mutation.
use vstd::prelude::*;

verus! {

/// At most `capacity` archived positions.
pub struct Archive<T> {
    items: Vec<T>,
    capacity: usize,
}

impl<T> Archive<T> {
    /// The archived positions.
    pub closed spec fn contents(&self) -> Seq<T> {
        self.items@
    }

    /// The most that the archive ever holds.
    pub closed spec fn bound(&self) -> nat {
        self.capacity as nat
    }

    pub open spec fn wf(&self) -> bool {
        0 < self.bound() && self.contents().len() <= self.bound()
    }

    /// An empty archive for at most `capacity` positions; `None` where
    /// `capacity` is zero.
    pub fn new(capacity: usize) -> (r: Option<Self>)
        ensures
            capacity == 0 <==> r is None,
            r matches Some(a) ==> a.wf() && a.contents() == Seq::<T>::empty() && a.bound()
                == capacity,
    {
        if capacity == 0 {
            None
        } else {
            Some(Archive { items: Vec::new(), capacity })
        }
    }

    pub fn len(&self) -> (r: usize)
        ensures
            r == self.contents().len(),
    {
        self.items.len()
    }

    pub fn capacity(&self) -> (r: usize)
        ensures
            r == self.bound(),
    {
        self.capacity
    }

    pub fn get(&self, k: usize) -> (r: &T)
        requires
            k < self.contents().len(),
        ensures
            *r == self.contents()[k as int],
    {
        &self.items[k]
    }

    /// Archives a replaced parent. Below capacity it is appended; at
    /// capacity it takes the place of the entry that `draw` picks uniformly.
    pub fn push(&mut self, item: T, draw: usize)
        requires
            old(self).wf(),
        ensures
            final(self).wf(),
            final(self).bound() == old(self).bound(),
            old(self).contents().len() < old(self).bound() ==> final(self).contents() == old(
                self,
            ).contents().push(item),
            old(self).contents().len() == old(self).bound() ==> final(self).contents() == old(
                self,
            ).contents().update(draw as int % old(self).contents().len() as int, item),
    {
        let n = self.items.len();
        if n < self.capacity {
            self.items.push(item);
        } else {
            self.items.set(draw % n, item);
        }
    }
}

} // verus!
