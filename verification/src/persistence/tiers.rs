//! Memory tiers, and the working-memory buffer.
use vstd::prelude::*;

verus! {

/// How long a memory is kept.
#[derive(Debug, Clone, Copy, PartialEq, Eq, Structural)]
pub enum MemoryTier {
    /// Immediate: active reasoning.
    Working,
    /// Recent: within the current session.
    ShortTerm,
    /// Persistent: survives sessions.
    LongTerm,
}

/// The working-memory buffer: the newest memories, at most `capacity` of
/// them once it has been filled.
pub struct WorkingMemory<M> {
    items: Vec<M>,
    capacity: usize,
}

impl<M> WorkingMemory<M> {
    /// The memories held, oldest first.
    pub closed spec fn held(&self) -> Seq<M> {
        self.items@
    }

    /// How many memories the buffer keeps.
    pub closed spec fn limit(&self) -> nat {
        self.capacity as nat
    }

    /// An empty buffer keeping `capacity` memories.
    pub fn new(capacity: usize) -> (w: WorkingMemory<M>)
        ensures
            w.held() == Seq::<M>::empty(),
            w.limit() == capacity,
    {
        WorkingMemory { items: Vec::new(), capacity }
    }

    /// How many memories the buffer keeps.
    pub fn capacity(&self) -> (c: usize)
        ensures
            c == self.limit(),
    {
        self.capacity
    }

    /// Adds a memory; when the buffer is full its oldest memory goes first.
    /// A buffer that keeps nothing cannot take a memory.
    pub fn push(&mut self, mem: M)
        requires
            old(self).held().len() >= old(self).limit() ==> old(self).held().len() > 0,
        ensures
            final(self).limit() == old(self).limit(),
            final(self).held() == (if old(self).held().len() >= old(self).limit() {
                old(self).held().drop_first()
            } else {
                old(self).held()
            }).push(mem),
    {
        if self.items.len() >= self.capacity {
            let _ = self.items.remove(0);
        }
        self.items.push(mem);
    }
}

impl<M> Default for WorkingMemory<M> {
    /// A buffer that keeps nothing.
    fn default() -> (w: WorkingMemory<M>)
        ensures
            w.held() == Seq::<M>::empty(),
            w.limit() == 0,
    {
        WorkingMemory::new(0)
    }
}

/// A buffer filled up to its limit stays at it: pushing keeps the length
/// within the limit.
pub proof fn law_working_memory_bounded<M>(held: Seq<M>, limit: nat, mem: M)
    requires
        0 < limit,
        held.len() <= limit,
    ensures
        (if held.len() >= limit {
            held.drop_first()
        } else {
            held
        }).push(mem).len() <= limit,
{
}

} // verus!
