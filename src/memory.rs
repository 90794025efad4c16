//! The SHADE adaptation memory: a circular buffer of H parameter records.
use vstd::prelude::*;

verus! {

/// H slots of historical parameter records and the slot written next.
pub struct AdaptationMemory<T> {
    slots: Vec<T>,
    cursor: usize,
}

impl<T: Copy> AdaptationMemory<T> {
    /// The records, slot by slot.
    pub closed spec fn entries(&self) -> Seq<T> {
        self.slots@
    }

    /// The slot that the next successful generation writes.
    pub closed spec fn next_slot(&self) -> nat {
        self.cursor as nat
    }

    pub open spec fn wf(&self) -> bool {
        self.entries().len() > 0 && self.next_slot() < self.entries().len()
    }

    /// A memory of `history` slots that all hold `initial`; `None` where
    /// `history` is zero.
    pub fn new(history: usize, initial: T) -> (r: Option<Self>)
        ensures
            history == 0 <==> r is None,
            r matches Some(m) ==> m.wf() && m.entries() == Seq::new(history as nat, |_i| initial)
                && m.next_slot() == 0,
    {
        if history == 0 {
            return None;
        }
        let mut slots: Vec<T> = Vec::new();
        let mut i: usize = 0;
        while i < history
            invariant
                i <= history,
                slots@ == Seq::new(i as nat, |_j| initial),
            decreases history - i,
        {
            slots.push(initial);
            i = i + 1;
            assert(slots@ =~= Seq::new(i as nat, |_j| initial));
        }
        Some(AdaptationMemory { slots, cursor: 0 })
    }

    /// The number of slots, H.
    pub fn len(&self) -> (r: usize)
        ensures
            r == self.entries().len(),
    {
        self.slots.len()
    }

    /// The slot that the next successful generation writes.
    pub fn cursor(&self) -> (r: usize)
        ensures
            r == self.next_slot(),
    {
        self.cursor
    }

    /// The record in slot `k`.
    pub fn get(&self, k: usize) -> (r: T)
        requires
            k < self.entries().len(),
        ensures
            r == self.entries()[k as int],
    {
        self.slots[k]
    }

    /// The slot read for a target, from a uniform draw.
    pub fn slot_for(&self, draw: u64) -> (r: usize)
        requires
            self.wf(),
        ensures
            r == draw as nat % self.entries().len(),
            r < self.entries().len(),
    {
        (draw % (self.slots.len() as u64)) as usize
    }

    /// Ends a generation: with `None` (no trial succeeded) the memory stays
    /// as it is; with the weighted means of the successes they go into the
    /// cursor's slot and the cursor moves on, wrapping at H.
    pub fn record(&mut self, update: Option<T>)
        requires
            old(self).wf(),
        ensures
            final(self).wf(),
            final(self).entries().len() == old(self).entries().len(),
            update is None ==> final(self).entries() == old(self).entries()
                && final(self).next_slot() == old(self).next_slot(),
            update matches Some(v) ==> final(self).entries() == old(self).entries().update(
                old(self).next_slot() as int,
                v,
            ) && final(self).next_slot() == (old(self).next_slot() + 1) % old(
                self,
            ).entries().len(),
    {
        match update {
            None => {},
            Some(v) => {
            let c = self.cursor;
            assert(c < self.slots.len());
            self.slots.set(c, v);
            self.cursor = if c + 1 == self.slots.len() {
                0
            } else {
                c + 1
            };
            proof {
                let n = self.slots.len() as int;
                if c + 1 == n {
                    vstd::arithmetic::div_mod::lemma_mod_self_0(n);
                } else {
                    vstd::arithmetic::div_mod::lemma_small_mod((c + 1) as nat, n as nat);
                }
            }
            },
        }
    }
}

} // verus!
