//! Handle tables: each live handle maps to one payload. Handles are handed
//! out in increasing order and never reused, so a released handle stays
//! unknown for the rest of the process.
use vstd::prelude::*;

use crate::object::Trap;

verus! {

/// Largest number of handles that one table can ever hand out.
pub const MAX_HANDLES: usize = 0xffff_ffff;

pub struct HandleTable<T> {
    slots: Vec<Option<T>>,
}

impl<T> View for HandleTable<T> {
    type V = Map<u32, T>;

    /// The live handles and their payloads.
    closed spec fn view(&self) -> Map<u32, T> {
        Map::new(
            |h: u32| (h as int) < self.slots@.len() && self.slots@[h as int] is Some,
            |h: u32| self.slots@[h as int]->Some_0,
        )
    }
}

impl<T> HandleTable<T> {
    /// The number of handles handed out so far, live or released.
    pub closed spec fn minted(&self) -> nat {
        self.slots@.len()
    }

    pub closed spec fn wf(&self) -> bool {
        self.slots@.len() <= MAX_HANDLES
    }

    pub proof fn lemma_live_were_minted(&self, h: u32)
        requires
            self@.contains_key(h),
        ensures
            (h as nat) < self.minted(),
    {
    }

    pub fn new() -> (r: HandleTable<T>)
        ensures
            r.wf(),
            r@ == Map::<u32, T>::empty(),
            r.minted() == 0,
    {
        let r = HandleTable { slots: Vec::new() };
        assert(r@ =~= Map::<u32, T>::empty());
        r
    }

    /// Stores `value` under a fresh handle.
    pub fn push(&mut self, value: T) -> (r: Result<u32, Trap>)
        requires
            old(self).wf(),
        ensures
            final(self).wf(),
            match r {
                Ok(h) => {
                    &&& h as nat == old(self).minted()
                    &&& !old(self)@.contains_key(h)
                    &&& final(self)@ == old(self)@.insert(h, value)
                    &&& final(self).minted() == old(self).minted() + 1
                },
                Err(e) => {
                    &&& e == Trap::TableFull
                    &&& old(self).minted() == MAX_HANDLES
                    &&& *final(self) == *old(self)
                },
            },
    {
        if self.slots.len() >= MAX_HANDLES {
            return Err(Trap::TableFull);
        }
        let h = self.slots.len() as u32;
        self.slots.push(Some(value));
        assert(self@ =~= old(self)@.insert(h, value));
        Ok(h)
    }

    pub fn contains(&self, h: u32) -> (r: bool)
        ensures
            r == self@.contains_key(h),
    {
        (h as usize) < self.slots.len() && self.slots[h as usize].is_some()
    }

    pub fn get(&self, h: u32) -> (r: Result<&T, Trap>)
        ensures
            match r {
                Ok(v) => self@.contains_key(h) && *v == self@[h],
                Err(e) => !self@.contains_key(h) && e == Trap::UnknownHandle,
            },
    {
        if (h as usize) < self.slots.len() {
            match &self.slots[h as usize] {
                Some(v) => Ok(v),
                None => Err(Trap::UnknownHandle),
            }
        } else {
            Err(Trap::UnknownHandle)
        }
    }

    /// Removes the payload of `h`; the handle is unknown from then on.
    pub fn delete(&mut self, h: u32) -> (r: Result<T, Trap>)
        requires
            old(self).wf(),
        ensures
            final(self).wf(),
            final(self).minted() == old(self).minted(),
            match r {
                Ok(v) => {
                    &&& old(self)@.contains_key(h)
                    &&& v == old(self)@[h]
                    &&& final(self)@ == old(self)@.remove(h)
                },
                Err(e) => {
                    &&& !old(self)@.contains_key(h)
                    &&& e == Trap::UnknownHandle
                    &&& final(self)@ == old(self)@
                },
            },
    {
        if (h as usize) >= self.slots.len() || self.slots[h as usize].is_none() {
            return Err(Trap::UnknownHandle);
        }
        self.slots.push(None);
        let taken = self.slots.swap_remove(h as usize);
        assert(self.slots@ =~= old(self).slots@.update(h as int, None));
        assert(self@ =~= old(self)@.remove(h));
        match taken {
            Some(v) => Ok(v),
            None => Err(Trap::UnknownHandle),
        }
    }

    /// Puts a payload back under a handle that `delete` emptied.
    pub(crate) fn restore(&mut self, h: u32, value: T)
        requires
            old(self).wf(),
            (h as nat) < old(self).minted(),
            !old(self)@.contains_key(h),
        ensures
            final(self).wf(),
            final(self).minted() == old(self).minted(),
            final(self)@ == old(self)@.insert(h, value),
    {
        self.slots.set(h as usize, Some(value));
        assert(self@ =~= old(self)@.insert(h, value));
    }
}

} // verus!
