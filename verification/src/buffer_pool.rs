//! Pool of reusable frame buffers for capture and encoding pipelines.
//!
//! Buffers handed back with [`FrameBufferPool::release`] are zeroed and kept,
//! up to `max_pool_size` of them, for the next [`FrameBufferPool::acquire`].

use std::collections::VecDeque;
use vstd::prelude::*;

verus! {

/// Configuration for the frame buffer pool.
#[derive(Debug, Clone, Copy, PartialEq, Eq, Structural)]
pub struct FrameBufferPoolConfig {
    /// Maximum number of buffers kept for reuse.
    pub max_pool_size: usize,
    /// Size of each newly allocated buffer in bytes.
    pub buffer_size_bytes: usize,
    /// Statistics tracking switch.
    pub track_stats: bool,
}

impl Default for FrameBufferPoolConfig {
    fn default() -> (c: Self)
        ensures
            c.max_pool_size == 3,
            c.buffer_size_bytes == 1920 * 1080 * 4,
            c.track_stats,
    {
        FrameBufferPoolConfig { max_pool_size: 3, buffer_size_bytes: 1920 * 1080 * 4, track_stats: true }
    }
}

/// Statistics about buffer pool usage.
#[derive(Debug, Clone, Copy, PartialEq, Eq, Structural)]
pub struct FrameBufferPoolStats {
    pub allocations: u64,
    pub reallocations: u64,
    pub reuses: u64,
    pub in_use_count: usize,
    pub available_count: usize,
}

impl Default for FrameBufferPoolStats {
    fn default() -> (s: Self)
        ensures
            s.allocations == 0,
            s.reallocations == 0,
            s.reuses == 0,
            s.in_use_count == 0,
            s.available_count == 0,
    {
        FrameBufferPoolStats {
            allocations: 0,
            reallocations: 0,
            reuses: 0,
            in_use_count: 0,
            available_count: 0,
        }
    }
}

/// Whether every byte is zero.
pub open spec fn all_zero(s: Seq<u8>) -> bool {
    forall|i: int| 0 <= i < s.len() ==> #[trigger] s[i] == 0
}

/// A frame buffer that can be reused across frame captures.
#[derive(Debug, Clone)]
pub struct FrameBuffer {
    id: u64,
    data: Vec<u8>,
    capacity: usize,
}

/// Abstract contents of a [`FrameBuffer`].
pub ghost struct FrameBufferView {
    pub id: u64,
    pub data: Seq<u8>,
    pub capacity: usize,
}

impl View for FrameBuffer {
    type V = FrameBufferView;

    closed spec fn view(&self) -> FrameBufferView {
        FrameBufferView { id: self.id, data: self.data@, capacity: self.capacity }
    }
}

impl FrameBuffer {
    fn new(id: u64, capacity: usize) -> (b: Self)
        ensures
            b@.id == id,
            b@.capacity == capacity,
            b@.data.len() == capacity,
            all_zero(b@.data),
    {
        let mut data: Vec<u8> = Vec::with_capacity(capacity);
        let mut i: usize = 0;
        while i < capacity
            invariant
                i <= capacity,
                data@.len() == i,
                all_zero(data@),
            decreases capacity - i,
        {
            data.push(0u8);
            i = i + 1;
        }
        FrameBuffer { id, data, capacity }
    }

    pub fn id(&self) -> (r: u64)
        ensures
            r == self@.id,
    {
        self.id
    }

    pub fn data(&self) -> (r: &[u8])
        ensures
            r@ == self@.data,
    {
        self.data.as_slice()
    }

    pub fn data_mut(&mut self) -> (r: &mut [u8])
        ensures
            r@ == old(self)@.data,
            final(self)@.data == final(r)@,
            final(self)@.id == old(self)@.id,
            final(self)@.capacity == old(self)@.capacity,
    {
        self.data.as_mut_slice()
    }

    pub fn capacity(&self) -> (r: usize)
        ensures
            r == self@.capacity,
    {
        self.capacity
    }

    /// Clear the buffer (set every byte to 0) for reuse.
    pub fn reset(&mut self)
        ensures
            final(self)@.id == old(self)@.id,
            final(self)@.capacity == old(self)@.capacity,
            final(self)@.data.len() == old(self)@.data.len(),
            all_zero(final(self)@.data),
    {
        let n = self.data.len();
        let mut i: usize = 0;
        while i < n
            invariant
                i <= n,
                n == self.data@.len(),
                self.id == old(self).id,
                self.capacity == old(self).capacity,
                forall|k: int| 0 <= k < i ==> #[trigger] self.data@[k] == 0,
            decreases n - i,
        {
            self.data.set(i, 0u8);
            i = i + 1;
        }
    }
}

/// Memory-efficient pool of reusable frame buffers.
pub struct FrameBufferPool {
    config: FrameBufferPoolConfig,
    available: VecDeque<FrameBuffer>,
    in_use: Vec<u64>,
    next_buffer_id: u64,
    stats: FrameBufferPoolStats,
}

/// Abstract state of a [`FrameBufferPool`].
pub ghost struct FrameBufferPoolView {
    pub config: FrameBufferPoolConfig,
    pub available: Seq<FrameBuffer>,
    pub in_use: Seq<u64>,
    pub next_buffer_id: u64,
    pub stats: FrameBufferPoolStats,
}

impl View for FrameBufferPool {
    type V = FrameBufferPoolView;

    closed spec fn view(&self) -> FrameBufferPoolView {
        FrameBufferPoolView {
            config: self.config,
            available: self.available@,
            in_use: self.in_use@,
            next_buffer_id: self.next_buffer_id,
            stats: self.stats,
        }
    }
}

/// `s` without the first occurrence of `x` (unchanged when `x` is absent).
pub open spec fn remove_first(s: Seq<u64>, x: u64) -> Seq<u64>
    decreases s.len(),
{
    if s.len() == 0 {
        s
    } else if s[0] == x {
        s.drop_first()
    } else {
        seq![s[0]] + remove_first(s.drop_first(), x)
    }
}

impl FrameBufferPoolView {
    /// The pool keeps at most `max_pool_size` buffers, its statistics
    /// mirror the two lists, and each allocation took the next buffer id.
    pub open spec fn wf(self) -> bool {
        &&& self.available.len() <= self.config.max_pool_size
        &&& self.next_buffer_id == self.stats.allocations
        &&& self.stats.in_use_count == self.in_use.len()
        &&& self.stats.available_count == self.available.len()
    }
}


/// What an acquisition does: `b` is handed out and its id joins the in-use list.
pub open spec fn acquired(pre: FrameBufferPoolView, post: FrameBufferPoolView, b: FrameBufferView) -> bool {
    &&& post.wf()
    &&& post.config == pre.config
    &&& post.in_use == pre.in_use.push(b.id)
    &&& all_zero(b.data)
    &&& pre.available.len() > 0 ==> {
        let front = pre.available[0]@;
        &&& b.id == front.id
        &&& b.capacity == front.capacity
        &&& b.data.len() == front.data.len()
        &&& post.available == pre.available.drop_first()
        &&& post.next_buffer_id == pre.next_buffer_id
        &&& post.stats == FrameBufferPoolStats {
            reuses: (pre.stats.reuses + 1) as u64,
            in_use_count: (pre.stats.in_use_count + 1) as usize,
            available_count: (pre.available.len() - 1) as usize,
            ..pre.stats
        }
    }
    &&& pre.available.len() == 0 ==> {
        &&& b.id == pre.next_buffer_id
        &&& b.capacity == pre.config.buffer_size_bytes
        &&& b.data.len() == pre.config.buffer_size_bytes
        &&& post.available == pre.available
        &&& post.next_buffer_id == pre.next_buffer_id + 1
        &&& post.stats == FrameBufferPoolStats {
            allocations: (pre.stats.allocations + 1) as u64,
            in_use_count: (pre.stats.in_use_count + 1) as usize,
            ..pre.stats
        }
    }
}

/// What a release of `b` does.
pub open spec fn released(pre: FrameBufferPoolView, b: FrameBufferView, post: FrameBufferPoolView) -> bool {
    &&& post.wf()
    &&& post.config == pre.config
    &&& post.next_buffer_id == pre.next_buffer_id
    &&& post.in_use == remove_first(pre.in_use, b.id)
    &&& pre.available.len() < pre.config.max_pool_size ==> {
        &&& post.available.len() == pre.available.len() + 1
        &&& post.available.drop_last() == pre.available
        &&& post.available.last()@.id == b.id
        &&& post.available.last()@.capacity == b.capacity
        &&& post.available.last()@.data.len() == b.data.len()
        &&& all_zero(post.available.last()@.data)
    }
    &&& pre.available.len() >= pre.config.max_pool_size ==> post.available == pre.available
    &&& post.stats.allocations == pre.stats.allocations
    &&& post.stats.reuses == pre.stats.reuses
    &&& post.stats.reallocations == pre.stats.reallocations
}

proof fn lemma_remove_first_len(s: Seq<u64>, x: u64)
    ensures
        remove_first(s, x).len() == if s.contains(x) {
            s.len() - 1
        } else {
            s.len() as int
        },
    decreases s.len(),
{
    if s.len() > 0 {
        lemma_remove_first_len(s.drop_first(), x);
        if s[0] != x {
            if s.contains(x) {
                let k = choose|k: int| 0 <= k < s.len() && s[k] == x;
                assert(s.drop_first()[k - 1] == x);
            }
            if s.drop_first().contains(x) {
                let k = choose|k: int| 0 <= k < s.len() - 1 && s.drop_first()[k] == x;
                assert(s[k + 1] == x);
            }
        } else {
            assert(s[0] == x);
        }
    }
}

proof fn lemma_remove_first_at(s: Seq<u64>, x: u64, pos: int)
    requires
        0 <= pos < s.len(),
        s[pos] == x,
        forall|k: int| 0 <= k < pos ==> s[k] != x,
    ensures
        remove_first(s, x) == s.remove(pos),
    decreases s.len(),
{
    if pos == 0 {
        assert(s.drop_first() =~= s.remove(0));
    } else {
        lemma_remove_first_at(s.drop_first(), x, pos - 1);
        assert(seq![s[0]] + s.drop_first().remove(pos - 1) =~= s.remove(pos));
    }
}

proof fn lemma_remove_first_absent(s: Seq<u64>, x: u64)
    requires
        forall|k: int| 0 <= k < s.len() ==> s[k] != x,
    ensures
        remove_first(s, x) == s,
    decreases s.len(),
{
    if s.len() > 0 {
        lemma_remove_first_absent(s.drop_first(), x);
        assert(seq![s[0]] + s.drop_first() =~= s);
    }
}

impl FrameBufferPool {
    pub fn new(config: FrameBufferPoolConfig) -> (p: Self)
        ensures
            p@.wf(),
            p@.config == config,
            p@.available.len() == 0,
            p@.in_use.len() == 0,
            p@.next_buffer_id == 0,
            p@.stats == (FrameBufferPoolStats {
                allocations: 0,
                reallocations: 0,
                reuses: 0,
                in_use_count: 0,
                available_count: 0,
            }),
    {
        FrameBufferPool {
            config,
            available: VecDeque::new(),
            in_use: Vec::new(),
            next_buffer_id: 0,
            stats: FrameBufferPoolStats::default(),
        }
    }

    /// Take a buffer from the pool, zeroed, or allocate a new one when the pool is empty.
    pub fn acquire(&mut self) -> (b: FrameBuffer)
        requires
            old(self)@.wf(),
            old(self)@.in_use.len() < usize::MAX,
            old(self)@.available.len() > 0 ==> old(self)@.stats.reuses < u64::MAX,
            old(self)@.available.len() == 0 ==> old(self)@.stats.allocations < u64::MAX
                && old(self)@.next_buffer_id < u64::MAX,
        ensures
            acquired(old(self)@, final(self)@, b@),
    {
        let buffer = if let Some(mut buf) = self.available.pop_front() {
            buf.reset();
            self.stats.reuses = self.stats.reuses + 1;
            self.stats.in_use_count = self.stats.in_use_count + 1;
            self.stats.available_count = self.available.len();
            buf
        } else {
            let buf = FrameBuffer::new(self.next_buffer_id, self.config.buffer_size_bytes);
            self.next_buffer_id = self.next_buffer_id + 1;
            self.stats.allocations = self.stats.allocations + 1;
            self.stats.in_use_count = self.stats.in_use_count + 1;
            buf
        };
        self.in_use.push(buffer.id());
        buffer
    }

    /// Return a buffer to the pool: its id leaves the in-use list, and it is
    /// zeroed and kept when fewer than `max_pool_size` buffers are kept,
    /// otherwise dropped.
    pub fn release(&mut self, buffer: FrameBuffer)
        requires
            old(self)@.wf(),
        ensures
            released(old(self)@, buffer@, final(self)@),
    {
        let id = buffer.id();
        let mut pos: usize = 0;
        let mut found = false;
        while pos < self.in_use.len()
            invariant_except_break
                !found,
                pos <= self.in_use@.len(),
                forall|k: int| 0 <= k < pos ==> self.in_use@[k] != id,
            ensures
                pos <= self.in_use@.len(),
                forall|k: int| 0 <= k < pos ==> self.in_use@[k] != id,
                found ==> pos < self.in_use@.len() && self.in_use@[pos as int] == id,
                !found ==> pos == self.in_use@.len(),
            decreases self.in_use@.len() - pos,
        {
            if self.in_use[pos] == id {
                found = true;
                break;
            }
            pos = pos + 1;
        }
        proof {
            if found {
                lemma_remove_first_at(self.in_use@, id, pos as int);
            } else {
                lemma_remove_first_absent(self.in_use@, id);
            }
        }
        if found {
            self.in_use.remove(pos);
        }
        if self.available.len() < self.config.max_pool_size {
            let mut buffer = buffer;
            buffer.reset();
            let ghost kept = buffer;
            self.available.push_back(buffer);
            proof {
                assert(self.available@.drop_last() =~= old(self).available@);
                assert(self.available@.last() == kept);
            }
        }
        self.stats.in_use_count = self.in_use.len();
        self.stats.available_count = self.available.len();
    }

    /// Current statistics about pool usage.
    pub fn stats(&self) -> (s: FrameBufferPoolStats)
        ensures
            s == self@.stats,
    {
        self.stats
    }

    /// Memory held by the pool: every kept or handed-out buffer counted at
    /// the configured size.
    pub fn memory_usage_bytes(&self) -> (n: usize)
        requires
            self@.available.len() + self@.in_use.len() <= usize::MAX,
            (self@.available.len() + self@.in_use.len()) * self@.config.buffer_size_bytes
                <= usize::MAX,
        ensures
            n == (self@.available.len() + self@.in_use.len()) * self@.config.buffer_size_bytes,
    {
        let total_buffers = self.available.len() + self.in_use.len();
        total_buffers * self.config.buffer_size_bytes
    }

    /// Number of buffers kept for reuse.
    pub fn available_count(&self) -> (n: usize)
        ensures
            n == self@.available.len(),
    {
        self.available.len()
    }

    /// Number of buffers handed out and not yet released.
    pub fn in_use_count(&self) -> (n: usize)
        ensures
            n == self@.in_use.len(),
    {
        self.in_use.len()
    }
}

/// A buffer released into a pool that keeps none is the very buffer the
/// next acquisition hands out.
pub proof fn law_release_then_acquire_reuses(
    p0: FrameBufferPoolView,
    b: FrameBufferView,
    p1: FrameBufferPoolView,
    b2: FrameBufferView,
    p2: FrameBufferPoolView,
)
    requires
        p0.wf(),
        p0.available.len() == 0,
        p0.config.max_pool_size > 0,
        released(p0, b, p1),
        acquired(p1, p2, b2),
    ensures
        b2.id == b.id,
        b2.capacity == b.capacity,
        p2.available.len() == 0,
{
}

} // verus!
