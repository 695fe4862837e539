use vstd::prelude::*;

verus! {

/// How the body of a packet is read: into one buffer of the pool, or in
/// chunks of the given size into a growing vector.
#[derive(Debug, Clone, Copy, PartialEq, Eq, Structural)]
pub enum ReadStrategy {
    Buffer,
    Chunk(usize),
}

/// The sizes of a buffer pool: the size of each buffer, how many buffers it
/// keeps, and the chunk size for packets larger than a buffer.
#[derive(Debug, Clone, PartialEq, Eq, Structural)]
pub struct MockBufferConfig {
    pub buffer_size: usize,
    pub pool_capacity: usize,
    pub chunk_size: usize,
}

impl Default for MockBufferConfig {
    fn default() -> (r: Self)
        ensures
            r == (MockBufferConfig { buffer_size: 8192, pool_capacity: 64, chunk_size: 8192 }),
    {
        MockBufferConfig { buffer_size: 8192, pool_capacity: 64, chunk_size: 8192 }
    }
}

impl MockBufferConfig {
    /// How a packet of `packet_size` bytes is read: into a pooled buffer when
    /// it fits one, else in chunks of the configured size.
    pub fn read_strategy(&self, packet_size: usize) -> (r: ReadStrategy)
        ensures
            r == (if packet_size <= self.buffer_size {
                ReadStrategy::Buffer
            } else {
                ReadStrategy::Chunk(self.chunk_size)
            }),
    {
        if packet_size <= self.buffer_size {
            ReadStrategy::Buffer
        } else {
            ReadStrategy::Chunk(self.chunk_size)
        }
    }
}


/// Where a pool takes a buffer for a request from.
#[derive(Debug, Clone, Copy, PartialEq, Eq, Structural)]
pub enum AcquirePlan {
    /// A fresh buffer of the requested size that the pool does not keep.
    Owned,
    /// A buffer returned while the free list was busy.
    Pending,
    /// The oldest buffer of the free list.
    Free,
    /// A fresh pooled buffer of the pool's buffer size, or larger.
    NewPooled,
}

/// What a pool does with a buffer that comes back.
#[derive(Debug, Clone, Copy, PartialEq, Eq, Structural)]
pub enum ReturnPlan {
    /// Keep it in the free list.
    Free,
    /// Keep it aside until a request takes it.
    Pending,
    /// Drop it: it is smaller than the pool's buffers.
    Drop,
}

impl MockBufferConfig {
    /// Where a request for `size` bytes is served from: a request larger
    /// than a buffer gets a buffer of its own; otherwise a buffer put aside,
    /// then one of the free list, then a new pooled one while the pool holds
    /// fewer than its capacity, else one of its own.
    pub fn acquire_plan(&self, size: usize, has_pending: bool, has_free: bool, current_count: usize) -> (r: AcquirePlan)
        ensures
            r == (if size > self.buffer_size {
                AcquirePlan::Owned
            } else if has_pending {
                AcquirePlan::Pending
            } else if has_free {
                AcquirePlan::Free
            } else if current_count < self.pool_capacity {
                AcquirePlan::NewPooled
            } else {
                AcquirePlan::Owned
            }),
    {
        if size > self.buffer_size {
            AcquirePlan::Owned
        } else if has_pending {
            AcquirePlan::Pending
        } else if has_free {
            AcquirePlan::Free
        } else if current_count < self.pool_capacity {
            AcquirePlan::NewPooled
        } else {
            AcquirePlan::Owned
        }
    }

    /// What becomes of a returned buffer of `capacity` bytes: one smaller
    /// than the pool's buffers is dropped; one that fits goes to the free
    /// list when the list could be taken (`free_len` is its length then) and
    /// is not full, and aside otherwise.
    pub fn return_plan(&self, capacity: usize, free_len: Option<usize>) -> (r: ReturnPlan)
        ensures
            r == (if capacity < self.buffer_size {
                ReturnPlan::Drop
            } else if free_len matches Some(n) && n < self.pool_capacity {
                ReturnPlan::Free
            } else {
                ReturnPlan::Pending
            }),
    {
        if capacity < self.buffer_size {
            return ReturnPlan::Drop;
        }
        match free_len {
            Some(n) => if n < self.pool_capacity {
                ReturnPlan::Free
            } else {
                ReturnPlan::Pending
            },
            None => ReturnPlan::Pending,
        }
    }
}

} // verus!
