//! Encoder pooling and memory management for long streaming sessions:
//! reusable encoders per configuration, bounded reference frame tracking,
//! and staging buffers reclaimed after a timeout measured in frames.

use std::collections::HashMap;
use vstd::prelude::*;

verus! {

broadcast use vstd::std_specs::hash::group_hash_axioms;

/// Configuration for encoder pooling.
#[derive(Debug, Clone, Copy, PartialEq, Eq, Structural)]
pub struct EncoderPoolConfig {
    /// Maximum encoders per configuration.
    pub max_encoders_per_config: usize,
    /// Statistics tracking switch.
    pub track_stats: bool,
}

impl Default for EncoderPoolConfig {
    fn default() -> (c: Self)
        ensures
            c.max_encoders_per_config == 2,
            c.track_stats,
    {
        EncoderPoolConfig { max_encoders_per_config: 2, track_stats: true }
    }
}

/// Statistics about encoder pool usage.
#[derive(Debug, Clone, Copy, PartialEq, Eq, Structural)]
pub struct EncoderPoolStats {
    pub total_created: u64,
    pub reuses: u64,
    pub active_encoders: usize,
    pub idle_encoders: usize,
}

impl Default for EncoderPoolStats {
    fn default() -> (s: Self)
        ensures
            s == zero_stats(),
    {
        EncoderPoolStats { total_created: 0, reuses: 0, active_encoders: 0, idle_encoders: 0 }
    }
}

/// Statistics with every counter at zero.
pub open spec fn zero_stats() -> EncoderPoolStats {
    EncoderPoolStats { total_created: 0, reuses: 0, active_encoders: 0, idle_encoders: 0 }
}

/// One encoder configuration that can be pooled.
#[derive(Debug, Clone, Copy, PartialEq, Eq, Hash, Structural)]
pub struct EncoderConfig {
    pub codec: u32,
    pub width: u32,
    pub height: u32,
    pub bitrate_kbps: u32,
    pub fps: u32,
}

/// An encoder with lifecycle tracking.
#[derive(Debug, Clone, Copy, PartialEq, Eq, Structural)]
pub struct PooledEncoder {
    pub id: u64,
    pub config: EncoderConfig,
    pub frames_encoded: u64,
    pub is_healthy: bool,
}

/// A fresh, healthy encoder.
pub open spec fn fresh_encoder(id: u64, config: EncoderConfig) -> PooledEncoder {
    PooledEncoder { id, config, frames_encoded: 0, is_healthy: true }
}

impl PooledEncoder {
    pub fn new(id: u64, config: EncoderConfig) -> (e: Self)
        ensures
            e == fresh_encoder(id, config),
    {
        PooledEncoder { id, config, frames_encoded: 0, is_healthy: true }
    }

    /// Mark the encoder unhealthy after corrupted frames or errors.
    pub fn mark_unhealthy(&mut self)
        ensures
            *final(self) == (PooledEncoder { is_healthy: false, ..*old(self) }),
    {
        self.is_healthy = false;
    }

    /// Whether the encoder must be reconfigured before serving `new_config`.
    pub fn needs_reconfiguration(&self, new_config: &EncoderConfig) -> (r: bool)
        ensures
            r == (self.config != *new_config),
    {
        self.config != *new_config
    }
}

/// A reference frame held by an encoder.
#[derive(Debug, Clone, Copy, PartialEq, Eq, Structural)]
pub struct ReferenceFrame {
    pub frame_id: u64,
    pub is_keyframe: bool,
    pub size_mb: u32,
}

/// The keyframes of `s`, in order.
pub open spec fn keyframes_only(s: Seq<ReferenceFrame>) -> Seq<ReferenceFrame>
    decreases s.len(),
{
    if s.len() == 0 {
        s
    } else if s.last().is_keyframe {
        keyframes_only(s.drop_last()).push(s.last())
    } else {
        keyframes_only(s.drop_last())
    }
}

/// Total size in MB of the references in `s`.
pub open spec fn total_mb(s: Seq<ReferenceFrame>) -> nat
    decreases s.len(),
{
    if s.len() == 0 {
        0
    } else {
        total_mb(s.drop_last()) + s.last().size_mb as nat
    }
}

/// The references after recording `new_frame`: a keyframe releases every
/// non-keyframe reference, then the oldest references are dropped until
/// there is room for the new one.
pub open spec fn after_reference_update(
    refs: Seq<ReferenceFrame>,
    max_references: usize,
    new_frame: ReferenceFrame,
) -> Seq<ReferenceFrame> {
    let r1 = if new_frame.is_keyframe {
        keyframes_only(refs)
    } else {
        refs
    };
    let r2 = if r1.len() >= max_references {
        r1.skip(r1.len() - max_references + 1)
    } else {
        r1
    };
    r2.push(new_frame)
}

/// The references that stay candidates when `new_frame` is recorded: the
/// keyframes for a keyframe, all of them otherwise.
pub open spec fn references_kept(refs: Seq<ReferenceFrame>, new_frame: ReferenceFrame) -> Seq<ReferenceFrame> {
    if new_frame.is_keyframe {
        keyframes_only(refs)
    } else {
        refs
    }
}

proof fn lemma_keyframes_only(s: Seq<ReferenceFrame>)
    ensures
        forall|i: int| 0 <= i < keyframes_only(s).len() ==> (#[trigger] keyframes_only(s)[i]).is_keyframe,
    decreases s.len(),
{
    if s.len() > 0 {
        lemma_keyframes_only(s.drop_last());
        let p = keyframes_only(s.drop_last());
        assert forall|i: int| 0 <= i < keyframes_only(s).len() implies (#[trigger] keyframes_only(s)[i]).is_keyframe by {
            if i < p.len() {
                assert(keyframes_only(s)[i] == p[i]);
            }
        }
    }
}

/// Recording a frame keeps at most `max_references` references, the new
/// frame last; a keyframe leaves only keyframes before it; and the
/// references kept before it are, in order, the newest of those that
/// remained (all of them, or the keyframes after a keyframe): only the
/// oldest are dropped.
pub proof fn law_reference_update(refs: Seq<ReferenceFrame>, max_references: usize, new_frame: ReferenceFrame)
    requires
        max_references > 0,
    ensures
        after_reference_update(refs, max_references, new_frame).len() <= max_references,
        after_reference_update(refs, max_references, new_frame).last() == new_frame,
        new_frame.is_keyframe ==> forall|i: int|
            0 <= i < after_reference_update(refs, max_references, new_frame).len() ==> (
            #[trigger] after_reference_update(refs, max_references, new_frame)[i]).is_keyframe,
        exists|k: int|
            0 <= k <= references_kept(refs, new_frame).len() && after_reference_update(
                refs,
                max_references,
                new_frame,
            ).drop_last() == #[trigger] references_kept(refs, new_frame).skip(k),
{
    let r1 = references_kept(refs, new_frame);
    let k: int = if r1.len() >= max_references { r1.len() - max_references + 1 } else { 0 };
    let a = after_reference_update(refs, max_references, new_frame);
    assert(a.drop_last() =~= r1.skip(k));
    if new_frame.is_keyframe {
        lemma_keyframes_only(refs);
        assert forall|i: int| 0 <= i < a.len() implies (#[trigger] a[i]).is_keyframe by {
            if i < a.len() - 1 {
                assert(a[i] == r1[k + i]);
            }
        }
    }
}

/// Tracks the reference frames held by the encoder, bounded in number.
#[derive(Debug)]
pub struct ReferenceFrameManager {
    pub references: Vec<ReferenceFrame>,
    pub max_references: usize,
}

impl ReferenceFrameManager {
    pub fn new(max_references: usize) -> (m: Self)
        ensures
            m.references@.len() == 0,
            m.max_references == max_references,
    {
        ReferenceFrameManager { references: Vec::new(), max_references }
    }

    /// Record a new frame and release references that are no longer needed.
    pub fn update(&mut self, new_frame_id: u64, is_keyframe: bool, size_mb: u32)
        requires
            old(self).max_references > 0,
        ensures
            final(self).max_references == old(self).max_references,
            final(self).references@ == after_reference_update(
                old(self).references@,
                old(self).max_references,
                ReferenceFrame { frame_id: new_frame_id, is_keyframe, size_mb },
            ),
    {
        if is_keyframe {
            let mut kept: Vec<ReferenceFrame> = Vec::new();
            let mut i: usize = 0;
            while i < self.references.len()
                invariant
                    i <= self.references@.len(),
                    kept@ == keyframes_only(self.references@.subrange(0, i as int)),
                decreases self.references@.len() - i,
            {
                proof {
                    assert(self.references@.subrange(0, i + 1).drop_last() =~= self.references@.subrange(
                        0,
                        i as int,
                    ));
                }
                let rf = self.references[i];
                if rf.is_keyframe {
                    kept.push(rf);
                }
                i = i + 1;
            }
            proof {
                assert(self.references@.subrange(0, i as int) =~= self.references@);
            }
            self.references = kept;
        }
        let ghost r1 = self.references@;
        while self.references.len() >= self.max_references
            invariant
                self.max_references == old(self).max_references,
                self.max_references > 0,
                r1.len() >= self.max_references ==> self.references@ =~= r1.skip(
                    r1.len() - self.references@.len(),
                ),
                r1.len() >= self.max_references ==> self.references@.len() >= self.max_references
                    - 1,
                self.references@.len() <= r1.len(),
                r1.len() < self.max_references ==> self.references@ == r1,
            decreases self.references@.len(),
        {
            let ghost prev = self.references@;
            if self.references.len() > 0 {
                self.references.remove(0);
                proof {
                    if r1.len() >= self.max_references {
                        let a = r1.len() - prev.len();
                        assert(prev =~= r1.skip(a));
                        assert(self.references@ =~= prev.remove(0));
                        assert forall|j: int| 0 <= j < self.references@.len() implies self.references@[j]
                            == r1.skip(a + 1)[j] by {
                            assert(self.references@[j] == prev[j + 1]);
                            assert(prev[j + 1] == r1[a + j + 1]);
                        }
                        assert(self.references@ =~= r1.skip(a + 1));
                    }
                }
            }
        }
        self.references.push(ReferenceFrame { frame_id: new_frame_id, is_keyframe, size_mb });
    }

    /// Total memory held by the tracked references, in MB.
    pub fn total_memory_mb(&self) -> (t: u32)
        requires
            total_mb(self.references@) <= u32::MAX,
        ensures
            t == total_mb(self.references@),
    {
        let mut total: u32 = 0;
        let mut i: usize = 0;
        while i < self.references.len()
            invariant
                i <= self.references@.len(),
                total == total_mb(self.references@.subrange(0, i as int)),
                total_mb(self.references@) <= u32::MAX,
            decreases self.references@.len() - i,
        {
            proof {
                assert(self.references@.subrange(0, i + 1).drop_last() =~= self.references@.subrange(
                    0,
                    i as int,
                ));
                lemma_total_mb_prefix(self.references@, i + 1);
            }
            total = total + self.references[i].size_mb;
            i = i + 1;
        }
        proof {
            assert(self.references@.subrange(0, i as int) =~= self.references@);
        }
        total
    }

    pub fn reference_count(&self) -> (n: usize)
        ensures
            n == self.references@.len(),
    {
        self.references.len()
    }
}


/// A staging buffer for CPU-GPU transfer.
#[derive(Debug, Clone, Copy, PartialEq, Eq, Structural)]
pub struct StagingBuffer {
    pub id: u64,
    pub size_bytes: u32,
    pub last_used_frame_id: u64,
}

/// Whether a buffer last used at `last_used` is stale at frame `current`.
pub open spec fn is_stale(last_used: u64, current: u64, timeout: u64) -> bool {
    (if current >= last_used {
        current - last_used
    } else {
        0
    }) > timeout
}

/// The buffers still tracked after pruning at frame `current`.
pub open spec fn pruned(m: Map<u64, StagingBuffer>, current: u64, timeout: u64) -> Map<
    u64,
    StagingBuffer,
> {
    m.restrict(m.dom().filter(|k: u64| !is_stale(m[k].last_used_frame_id, current, timeout)))
}

/// Total size in bytes of the buffers of `m`.
pub open spec fn staging_total(m: Map<u64, StagingBuffer>) -> int {
    m.dom().fold(0int, |acc: int, k: u64| acc + m[k].size_bytes)
}

/// Memory pressure levels relative to the configured maximum.
#[derive(Debug, Clone, Copy, PartialEq, Eq, Structural)]
pub enum MemoryPressure {
    Critical,
    High,
    Medium,
    Low,
}

/// Pressure for `used` bytes against a maximum of `max` bytes.
pub open spec fn pressure_of(used: int, max: int) -> MemoryPressure {
    if used > max {
        MemoryPressure::Critical
    } else if used > max * 3 / 4 {
        MemoryPressure::High
    } else if used > max / 2 {
        MemoryPressure::Medium
    } else {
        MemoryPressure::Low
    }
}

/// Staging buffers reclaimed after a timeout measured in frames.
#[derive(Debug)]
pub struct StagingBufferPool {
    pub buffers: HashMap<u64, StagingBuffer>,
    pub max_total_bytes: u32,
    pub reclaim_timeout_frames: u64,
    pub current_frame_id: u64,
    /// The id the next registered buffer gets.
    pub next_id: u64,
}

proof fn lemma_fold_step(m: Map<u64, StagingBuffer>, done: Set<u64>, k: u64)
    requires
        done.finite(),
        !done.contains(k),
    ensures
        done.insert(k).fold(0int, |acc: int, j: u64| acc + m[j].size_bytes) == done.fold(
            0int,
            |acc: int, j: u64| acc + m[j].size_bytes,
        ) + m[k].size_bytes,
{
    let f = |acc: int, j: u64| acc + m[j].size_bytes;
    assert(vstd::set::fold::is_fun_commutative(f));
    vstd::set::fold::lemma_fold_insert(done, 0int, f, k);
}

proof fn lemma_fold_subset(m: Map<u64, StagingBuffer>, s: Set<u64>)
    requires
        s.finite(),
        s.subset_of(m.dom()),
        m.dom().finite(),
    ensures
        s.fold(0int, |acc: int, j: u64| acc + m[j].size_bytes) <= staging_total(m),
    decreases m.dom().len() - s.len(),
{
    let f = |acc: int, j: u64| acc + m[j].size_bytes;
    if s =~= m.dom() {
    } else {
        let a = choose|a: u64| m.dom().contains(a) && !s.contains(a);
        vstd::set_lib::lemma_len_subset(s, m.dom());
        lemma_fold_step(m, s, a);
        assert(s.insert(a).len() == s.len() + 1);
        if s.insert(a).len() > m.dom().len() {
            vstd::set_lib::lemma_len_subset(s.insert(a), m.dom());
        }
        lemma_fold_subset(m, s.insert(a));
    }
}

impl StagingBufferPool {
    /// The number of ids handed out so far; the next buffer gets this id.
    pub open spec fn ids_issued(&self) -> u64 {
        self.next_id
    }

    /// Every tracked buffer has an id handed out earlier.
    pub open spec fn wf(&self) -> bool {
        forall|k: u64| #[trigger] self.buffers@.contains_key(k) ==> k < self.next_id
    }

    pub fn new(max_total_bytes: u32, reclaim_timeout_frames: u64) -> (p: Self)
        ensures
            p.wf(),
            p.ids_issued() == 0,
            p.buffers@ == Map::<u64, StagingBuffer>::empty(),
            p.max_total_bytes == max_total_bytes,
            p.reclaim_timeout_frames == reclaim_timeout_frames,
            p.current_frame_id == 0,
    {
        StagingBufferPool {
            buffers: HashMap::new(),
            max_total_bytes,
            reclaim_timeout_frames,
            current_frame_id: 0,
            next_id: 0,
        }
    }

    /// Track a new buffer under a fresh id: the next id never handed out
    /// before, so no tracked buffer is replaced.
    pub fn register(&mut self, size_bytes: u32) -> (id: u64)
        requires
            old(self).wf(),
            old(self).ids_issued() < u64::MAX,
        ensures
            id == old(self).ids_issued(),
            !old(self).buffers@.contains_key(id),
            final(self).buffers@ == old(self).buffers@.insert(
                id,
                StagingBuffer { id, size_bytes, last_used_frame_id: old(self).current_frame_id },
            ),
            final(self).wf(),
            final(self).ids_issued() == id + 1,
            final(self).max_total_bytes == old(self).max_total_bytes,
            final(self).reclaim_timeout_frames == old(self).reclaim_timeout_frames,
            final(self).current_frame_id == old(self).current_frame_id,
    {
        let id = self.next_id;
        self.next_id = self.next_id + 1;
        self.buffers.insert(
            id,
            StagingBuffer { id, size_bytes, last_used_frame_id: self.current_frame_id },
        );
        id
    }

    /// Mark buffer `id` as used in the current frame; unknown ids are ignored.
    pub fn use_buffer(&mut self, id: u64)
        ensures
            old(self).buffers@.contains_key(id) ==> final(self).buffers@ == old(self).buffers@.insert(
                id,
                StagingBuffer {
                    last_used_frame_id: old(self).current_frame_id,
                    ..old(self).buffers@[id]
                },
            ),
            !old(self).buffers@.contains_key(id) ==> final(self).buffers@ == old(self).buffers@,
            old(self).wf() ==> final(self).wf(),
            final(self).ids_issued() == old(self).ids_issued(),
            final(self).max_total_bytes == old(self).max_total_bytes,
            final(self).reclaim_timeout_frames == old(self).reclaim_timeout_frames,
            final(self).current_frame_id == old(self).current_frame_id,
    {
        let found = match self.buffers.get(&id) {
            Some(b) => Some(*b),
            None => None,
        };
        if let Some(b) = found {
            self.buffers.insert(id, StagingBuffer { last_used_frame_id: self.current_frame_id, ..b });
        }
    }

    /// Advance the frame counter and drop every buffer unused for more than
    /// the reclaim timeout.
    pub fn advance_frame(&mut self)
        requires
            old(self).current_frame_id < u64::MAX,
        ensures
            final(self).current_frame_id == old(self).current_frame_id + 1,
            final(self).buffers@ == pruned(
                old(self).buffers@,
                final(self).current_frame_id,
                old(self).reclaim_timeout_frames,
            ),
            old(self).wf() ==> final(self).wf(),
            final(self).ids_issued() == old(self).ids_issued(),
            final(self).max_total_bytes == old(self).max_total_bytes,
            final(self).reclaim_timeout_frames == old(self).reclaim_timeout_frames,
    {
        self.current_frame_id = self.current_frame_id + 1;
        let timeout = self.reclaim_timeout_frames;
        let current = self.current_frame_id;
        let ghost m = self.buffers@;
        let mut to_remove: Vec<u64> = Vec::new();
        for k in it: self.buffers.keys()
            invariant
                m == self.buffers@,
                self.current_frame_id == current,
                self.reclaim_timeout_frames == timeout,
                self.max_total_bytes == old(self).max_total_bytes,
                current == old(self).current_frame_id + 1,
                self.next_id == old(self).next_id,
                it.seq().unref().to_set() == m.dom(),
                it.seq().no_duplicates(),
                forall|i: int|
                    0 <= i < to_remove@.len() ==> m.contains_key(#[trigger] to_remove@[i])
                        && is_stale(m[to_remove@[i]].last_used_frame_id, current, timeout),
                forall|i: int|
                    0 <= i < it.index() ==> is_stale(
                        m[*it.seq()[i]].last_used_frame_id,
                        current,
                        timeout,
                    ) ==> to_remove@.contains(*#[trigger] it.seq()[i]),
            ensures
                forall|k: u64|
                    m.contains_key(k) && is_stale(m[k].last_used_frame_id, current, timeout)
                        ==> to_remove@.contains(k),
                forall|i: int|
                    0 <= i < to_remove@.len() ==> m.contains_key(#[trigger] to_remove@[i])
                        && is_stale(m[to_remove@[i]].last_used_frame_id, current, timeout),
                self.current_frame_id == current,
                self.reclaim_timeout_frames == timeout,
                self.max_total_bytes == old(self).max_total_bytes,
        {
            proof {
                let j = it.index();
                assert(it.seq().unref()[j] == *k);
                assert(it.seq().unref().to_set().contains(*k));
            }
            let ghost tr0 = to_remove@;
            let b = self.buffers.get(k);
            if let Some(buf) = b {
                let age = current.saturating_sub(buf.last_used_frame_id);
                if age > timeout {
                    to_remove.push(*k);
                }
            }
            proof {
                let i0 = it.index();
                assert forall|i: int|
                    0 <= i < i0 + 1 && is_stale(
                        m[*it.seq()[i]].last_used_frame_id,
                        current,
                        timeout,
                    ) implies to_remove@.contains(*#[trigger] it.seq()[i]) by {
                    if i < i0 {
                        assert(tr0.contains(*it.seq()[i]));
                        let w = choose|w: int| 0 <= w < tr0.len() && tr0[w] == *it.seq()[i];
                        assert(to_remove@[w] == tr0[w]);
                    } else {
                        assert(to_remove@.last() == *k);
                    }
                }
            }
        }
        let mut i: usize = 0;
        let ghost mut removed: Set<u64> = Set::empty();
        while i < to_remove.len()
            invariant
                i <= to_remove@.len(),
                self.current_frame_id == current,
                self.reclaim_timeout_frames == timeout,
                self.max_total_bytes == old(self).max_total_bytes,
                current == old(self).current_frame_id + 1,
                self.next_id == old(self).next_id,
                forall|x: u64| removed.contains(x) <==> exists|j: int| 0 <= j < i && #[trigger] to_remove@[j] == x,
                forall|j: int|
                    0 <= j < to_remove@.len() ==> m.contains_key(#[trigger] to_remove@[j])
                        && is_stale(m[to_remove@[j]].last_used_frame_id, current, timeout),
                forall|k: u64|
                    m.contains_key(k) && is_stale(m[k].last_used_frame_id, current, timeout)
                        ==> to_remove@.contains(k),
                self.buffers@ == m.remove_keys(removed),
            decreases to_remove@.len() - i,
        {
            let k = to_remove[i];
            self.buffers.remove(&k);
            proof {
                let old_removed = removed;
                removed = removed.insert(k);
                assert forall|x: u64| removed.contains(x) <==> exists|j: int| 0 <= j < i + 1 && #[trigger] to_remove@[j] == x by {
                    if x == k {
                        assert(to_remove@[i as int] == x);
                    }
                    if exists|j: int| 0 <= j < i + 1 && #[trigger] to_remove@[j] == x {
                        let j = choose|j: int| 0 <= j < i + 1 && #[trigger] to_remove@[j] == x;
                        if j < i {
                            assert(old_removed.contains(x));
                        }
                    }
                }
                assert(self.buffers@ =~= m.remove_keys(removed));
            }
            i = i + 1;
        }
        proof {
            assert forall|k: u64| #[trigger] removed.contains(k) <==> (m.contains_key(k) && is_stale(m[k].last_used_frame_id, current, timeout)) by {
                if removed.contains(k) {
                    let j = choose|j: int| 0 <= j < i && #[trigger] to_remove@[j] == k;
                }
                if m.contains_key(k) && is_stale(m[k].last_used_frame_id, current, timeout) {
                    assert(to_remove@.contains(k));
                    let j = choose|j: int| 0 <= j < to_remove@.len() && to_remove@[j] == k;
                    assert(to_remove@[j] == k);
                }
            }
            assert(self.buffers@ =~= pruned(m, current, timeout));
            assert forall|k: u64| #[trigger] self.buffers@.contains_key(k) implies m.contains_key(k) by {}
        }
    }

    /// Total size of the tracked buffers in bytes.
    pub fn total_memory_bytes(&self) -> (t: u32)
        requires
            staging_total(self.buffers@) <= u32::MAX,
        ensures
            t == staging_total(self.buffers@),
    {
        let ghost m = self.buffers@;
        let mut total: u32 = 0;
        let ghost mut done: Set<u64> = Set::empty();
        let ghost f = |acc: int, j: u64| acc + m[j].size_bytes;
        proof {
            vstd::set::fold::lemma_fold_empty(0int, f);
            if m.dom().len() == 0 {
                assert(m.dom() =~= Set::<u64>::empty());
            }
        }
        for k in it: self.buffers.keys()
            invariant
                m == self.buffers@,
                f == (|acc: int, j: u64| acc + m[j].size_bytes),
                it.seq().unref().to_set() == m.dom(),
                it.seq().no_duplicates(),
                it.seq().len() == m.dom().len(),
                0 <= it.index() <= it.seq().len(),
                forall|x: u64|
                    #[trigger] done.contains(x) <==> exists|j: int|
                        0 <= j < it.index() && it.seq().unref()[j] == x,
                done.finite(),
                done.subset_of(m.dom()),
                total == done.fold(0int, f),
                staging_total(m) <= u32::MAX,
                it.index() == it.seq().len() ==> total == staging_total(m),
            ensures
                total == staging_total(m),
        {
            proof {
                let i = it.index();
                let su = it.seq().unref();
                assert(su[i] == *k);
                assert(su.to_set().contains(*k));
                if done.contains(*k) {
                    let j = choose|j: int| 0 <= j < i && su[j] == *k;
                    assert(it.seq()[j] == it.seq()[i]);
                }
                lemma_fold_step(m, done, *k);
                lemma_fold_subset(m, done.insert(*k));
            }
            let b = self.buffers.get(k);
            if let Some(buf) = b {
                total = total + buf.size_bytes;
            }
            proof {
                let i = it.index();
                let old_done = done;
                done = done.insert(*k);
                assert forall|x: u64|
                    #[trigger] done.contains(x) <==> exists|j: int|
                        0 <= j < it.index() + 1 && it.seq().unref()[j] == x by {
                    if x == *k {
                        assert(it.seq().unref()[i] == x);
                    } else if exists|j: int| 0 <= j < it.index() + 1 && it.seq().unref()[j] == x {
                        let j = choose|j: int| 0 <= j < it.index() + 1 && it.seq().unref()[j] == x;
                        if j < i {
                            assert(old_done.contains(x));
                        }
                    }
                }
                if it.index() + 1 == m.dom().len() {
                    assert forall|x: u64| m.dom().contains(x) implies done.contains(x) by {
                        assert(it.seq().unref().to_set().contains(x));
                        let j = choose|j: int| 0 <= j < it.seq().unref().len() && it.seq().unref()[j] == x;
                    }
                    assert(done =~= m.dom());
                }
            }
        }
        total
    }

    /// Memory pressure of the tracked buffers against the configured maximum.
    pub fn memory_pressure(&self) -> (p: MemoryPressure)
        requires
            staging_total(self.buffers@) <= u32::MAX,
            staging_total(self.buffers@) <= self.max_total_bytes ==> self.max_total_bytes * 3
                <= u32::MAX,
        ensures
            p == pressure_of(staging_total(self.buffers@), self.max_total_bytes as int),
    {
        let used = self.total_memory_bytes();
        if used > self.max_total_bytes {
            MemoryPressure::Critical
        } else if used > (self.max_total_bytes * 3 / 4) {
            MemoryPressure::High
        } else if used > (self.max_total_bytes / 2) {
            MemoryPressure::Medium
        } else {
            MemoryPressure::Low
        }
    }
}


/// Idle lists per configuration, as held by an [`EncoderPool`].
pub type IdleLists = Seq<(EncoderConfig, Seq<PooledEncoder>)>;

/// Whether `idle` holds a list for `cfg`.
pub open spec fn has_config(idle: IdleLists, cfg: EncoderConfig) -> bool {
    exists|i: int| 0 <= i < idle.len() && #[trigger] idle[i].0 == cfg
}

/// Position of the list for `cfg` (meaningful when [`has_config`] holds).
pub open spec fn config_index(idle: IdleLists, cfg: EncoderConfig) -> int {
    choose|i: int| 0 <= i < idle.len() && #[trigger] idle[i].0 == cfg
}

/// Number of idle encoders kept for `cfg`.
pub open spec fn idle_len(idle: IdleLists, cfg: EncoderConfig) -> nat {
    if has_config(idle, cfg) {
        idle[config_index(idle, cfg)].1.len()
    } else {
        0
    }
}

/// Number of idle encoders over all configurations.
pub open spec fn total_idle(idle: IdleLists) -> nat
    decreases idle.len(),
{
    if idle.len() == 0 {
        0
    } else {
        total_idle(idle.drop_last()) + idle.last().1.len()
    }
}

/// Ids of the active encoders configured as `cfg`.
pub open spec fn active_for(active: Map<u64, PooledEncoder>, cfg: EncoderConfig) -> Set<u64> {
    active.dom().filter(|k: u64| active[k].config == cfg)
}

/// Abstract state of an [`EncoderPool`].
pub ghost struct EncoderPoolView {
    pub config: EncoderPoolConfig,
    pub idle: IdleLists,
    pub active: Map<u64, PooledEncoder>,
    pub next_encoder_id: u64,
    pub stats: EncoderPoolStats,
}

impl EncoderPoolView {
    /// Each configuration has at most one idle list holding at most
    /// `max_encoders_per_config` encoders, and the idle count fits a `usize`.
    pub open spec fn wf(self) -> bool {
        &&& forall|i: int, j: int|
            0 <= i < self.idle.len() && 0 <= j < self.idle.len() && i != j ==> #[trigger] self.idle[i].0
                != #[trigger] self.idle[j].0
        &&& total_idle(self.idle) <= usize::MAX
        &&& self.active.dom().finite()
        &&& forall|i: int|
            0 <= i < self.idle.len() ==> #[trigger] self.idle[i].1.len()
                <= self.config.max_encoders_per_config
    }

    /// Whether an acquisition for `cfg` reuses an idle encoder.
    pub open spec fn reuses_for(self, cfg: EncoderConfig) -> bool {
        has_config(self.idle, cfg) && self.idle[config_index(self.idle, cfg)].1.len() > 0
    }

    /// Whether an acquisition for `cfg` that does not reuse creates a
    /// tracked encoder: the active and idle encoders of `cfg` together are
    /// under the per-configuration limit.
    pub open spec fn creates_for(self, cfg: EncoderConfig) -> bool {
        !self.reuses_for(cfg) && active_for(self.active, cfg).len() + idle_len(self.idle, cfg)
            < self.config.max_encoders_per_config
    }
}

/// What [`EncoderPool::acquire`] does for `cfg`, handing out `e`.
pub open spec fn acquire_outcome(
    pre: EncoderPoolView,
    cfg: EncoderConfig,
    post: EncoderPoolView,
    e: PooledEncoder,
) -> bool {
    &&& post.config == pre.config
    &&& if pre.reuses_for(cfg) {
        let i = config_index(pre.idle, cfg);
        let list = pre.idle[i].1;
        &&& e == list.last()
        &&& post.idle == pre.idle.update(i, (cfg, list.drop_last()))
        &&& post.active == pre.active.insert(e.id, e)
        &&& post.next_encoder_id == pre.next_encoder_id
        &&& post.stats == EncoderPoolStats {
            reuses: (pre.stats.reuses + 1) as u64,
            active_encoders: (pre.active.len() + 1) as usize,
            idle_encoders: total_idle(post.idle) as usize,
            ..pre.stats
        }
    } else if pre.creates_for(cfg) {
        &&& e == fresh_encoder(pre.next_encoder_id, cfg)
        &&& post.idle == pre.idle
        &&& post.active == pre.active.insert(e.id, e)
        &&& post.next_encoder_id == pre.next_encoder_id + 1
        &&& post.stats == EncoderPoolStats {
            total_created: (pre.stats.total_created + 1) as u64,
            active_encoders: (pre.active.len() + 1) as usize,
            ..pre.stats
        }
    } else {
        &&& e == fresh_encoder(pre.next_encoder_id, cfg)
        &&& post.idle == pre.idle
        &&& post.active == pre.active
        &&& post.next_encoder_id == pre.next_encoder_id + 1
        &&& post.stats == pre.stats
    }
}

/// Idle lists after a healthy encoder `e` is offered back.
pub open spec fn idle_after_release(idle: IdleLists, e: PooledEncoder, max: usize) -> IdleLists {
    if has_config(idle, e.config) {
        let i = config_index(idle, e.config);
        let list = idle[i].1;
        if list.len() < max {
            idle.update(i, (e.config, list.push(e)))
        } else {
            idle
        }
    } else {
        idle.push(
            (
                e.config,
                if 0 < max {
                    seq![e]
                } else {
                    seq![]
                },
            ),
        )
    }
}

/// What [`EncoderPool::release`] does with `e`.
pub open spec fn release_outcome(pre: EncoderPoolView, e: PooledEncoder, post: EncoderPoolView) -> bool {
    &&& post.config == pre.config
    &&& post.next_encoder_id == pre.next_encoder_id
    &&& post.active == pre.active.remove(e.id)
    &&& if !e.is_healthy {
        &&& post.idle == pre.idle
        &&& post.stats == EncoderPoolStats { active_encoders: post.active.len() as usize, ..pre.stats }
    } else {
        &&& post.idle == idle_after_release(pre.idle, e, pre.config.max_encoders_per_config)
        &&& post.stats == EncoderPoolStats {
            active_encoders: post.active.len() as usize,
            idle_encoders: total_idle(post.idle) as usize,
            ..pre.stats
        }
    }
}

/// Pool of reusable encoders for adaptive bitrate switching.
pub struct EncoderPool {
    config: EncoderPoolConfig,
    idle_encoders: Vec<(EncoderConfig, Vec<PooledEncoder>)>,
    active_encoders: HashMap<u64, PooledEncoder>,
    next_encoder_id: u64,
    stats: EncoderPoolStats,
}

impl View for EncoderPool {
    type V = EncoderPoolView;

    closed spec fn view(&self) -> EncoderPoolView {
        EncoderPoolView {
            config: self.config,
            idle: self.idle_encoders@.map_values(
                |e: (EncoderConfig, Vec<PooledEncoder>)| (e.0, e.1@),
            ),
            active: self.active_encoders@,
            next_encoder_id: self.next_encoder_id,
            stats: self.stats,
        }
    }
}

proof fn lemma_total_idle_update(idle: IdleLists, i: int, x: (EncoderConfig, Seq<PooledEncoder>))
    requires
        0 <= i < idle.len(),
    ensures
        total_idle(idle.update(i, x)) + idle[i].1.len() == total_idle(idle) + x.1.len(),
    decreases idle.len(),
{
    let t = idle.update(i, x);
    if i == idle.len() - 1 {
        assert(t.drop_last() =~= idle.drop_last());
    } else {
        lemma_total_idle_update(idle.drop_last(), i, x);
        assert(t.drop_last() =~= idle.drop_last().update(i, x));
    }
}

proof fn lemma_total_idle_push(idle: IdleLists, x: (EncoderConfig, Seq<PooledEncoder>))
    ensures
        total_idle(idle.push(x)) == total_idle(idle) + x.1.len(),
{
    assert(idle.push(x).drop_last() =~= idle);
}

proof fn lemma_config_index(idle: IdleLists, cfg: EncoderConfig, i: int)
    requires
        0 <= i < idle.len(),
        idle[i].0 == cfg,
        forall|a: int, b: int|
            0 <= a < idle.len() && 0 <= b < idle.len() && a != b ==> #[trigger] idle[a].0
                != #[trigger] idle[b].0,
    ensures
        has_config(idle, cfg),
        config_index(idle, cfg) == i,
{
    assert(idle[i].0 == cfg);
    let j = config_index(idle, cfg);
    if j != i {
        assert(idle[j].0 != idle[i].0);
    }
}

impl EncoderPool {
    pub fn new(config: EncoderPoolConfig) -> (p: Self)
        ensures
            p@.wf(),
            p@.config == config,
            p@.idle.len() == 0,
            p@.active == Map::<u64, PooledEncoder>::empty(),
            p@.next_encoder_id == 0,
            p@.stats == zero_stats(),
    {
        let p = EncoderPool {
            config,
            idle_encoders: Vec::new(),
            active_encoders: HashMap::new(),
            next_encoder_id: 0,
            stats: EncoderPoolStats::default(),
        };
        proof {
            assert(p@.idle =~= Seq::<(EncoderConfig, Seq<PooledEncoder>)>::empty());
        }
        p
    }

    /// Position of the idle list for `config`, if any.
    fn find_idle(&self, config: &EncoderConfig) -> (r: Option<usize>)
        requires
            self@.wf(),
        ensures
            r is Some <==> has_config(self@.idle, *config),
            r matches Some(i) ==> i < self@.idle.len() && i == config_index(self@.idle, *config),
    {
        let mut i: usize = 0;
        while i < self.idle_encoders.len()
            invariant
                i <= self.idle_encoders@.len(),
                self@.wf(),
                forall|j: int| 0 <= j < i ==> self@.idle[j].0 != *config,
            decreases self.idle_encoders@.len() - i,
        {
            if self.idle_encoders[i].0 == *config {
                proof {
                    lemma_config_index(self@.idle, *config, i as int);
                }
                return Some(i);
            }
            i = i + 1;
        }
        None
    }

    /// Acquire an encoder for `config`: reuse an idle one, or create one while
    /// the pool is under its limit, or else hand out an untracked encoder.
    pub fn acquire(&mut self, config: EncoderConfig) -> (e: PooledEncoder)
        requires
            old(self)@.wf(),
            old(self)@.active.len() < usize::MAX,
            old(self)@.reuses_for(config) ==> old(self)@.stats.reuses < u64::MAX,
            !old(self)@.reuses_for(config) ==> old(self)@.next_encoder_id < u64::MAX,
            old(self)@.creates_for(config) ==> old(self)@.stats.total_created < u64::MAX,
        ensures
            final(self)@.wf(),
            acquire_outcome(old(self)@, config, final(self)@, e),
    {
        let pos = self.find_idle(&config);
        if let Some(i) = pos {
            if self.idle_encoders[i].1.len() > 0 {
                let ghost pre = self@;
                let mut entry: (EncoderConfig, Vec<PooledEncoder>) = (config, Vec::new());
                self.idle_encoders.set_and_swap(i, &mut entry);
                let encoder = entry.1.pop().unwrap();
                self.idle_encoders.set(i, entry);
                proof {
                    assert(self@.idle =~= pre.idle.update(
                        i as int,
                        (config, pre.idle[i as int].1.drop_last()),
                    ));
                    lemma_total_idle_update(pre.idle, i as int, (config, pre.idle[i as int].1.drop_last()));
                    assert forall|a: int, b: int|
                        0 <= a < self@.idle.len() && 0 <= b < self@.idle.len() && a != b implies #[trigger] self@.idle[a].0
                            != #[trigger] self@.idle[b].0 by {
                        assert(pre.idle[a].0 != pre.idle[b].0);
                    }
                }
                self.stats.reuses = self.stats.reuses + 1;
                self.stats.active_encoders = self.active_encoders.len() + 1;
                self.stats.idle_encoders = self.get_total_idle();
                self.active_encoders.insert(encoder.id, encoder);
                return encoder;
            }
        }
        let active_count = self.active_count_for(&config);
        let idle_count = match pos {
            Some(i) => self.idle_encoders[i].1.len(),
            None => 0,
        };
        let max = self.config.max_encoders_per_config;
        if idle_count < max && active_count < max - idle_count {
            let encoder = PooledEncoder::new(self.next_encoder_id, config);
            self.next_encoder_id = self.next_encoder_id + 1;
            self.stats.total_created = self.stats.total_created + 1;
            self.stats.active_encoders = self.active_encoders.len() + 1;
            self.active_encoders.insert(encoder.id, encoder);
            return encoder;
        }
        let encoder = PooledEncoder::new(self.next_encoder_id, config);
        self.next_encoder_id = self.next_encoder_id + 1;
        encoder
    }

    /// Release an encoder: it leaves the active set; a healthy one is kept
    /// idle for its configuration while that list is under the limit.
    pub fn release(&mut self, encoder: PooledEncoder)
        requires
            old(self)@.wf(),
            encoder.is_healthy ==> total_idle(old(self)@.idle) < usize::MAX,
        ensures
            final(self)@.wf(),
            release_outcome(old(self)@, encoder, final(self)@),
    {
        if !encoder.is_healthy {
            self.active_encoders.remove(&encoder.id);
            self.stats.active_encoders = self.active_encoders.len();
            return;
        }
        self.active_encoders.remove(&encoder.id);
        let config = encoder.config;
        let ghost pre_idle = self@.idle;
        let pos = self.find_idle(&config);
        match pos {
            Some(i) => {
                if self.idle_encoders[i].1.len() < self.config.max_encoders_per_config {
                    let mut entry: (EncoderConfig, Vec<PooledEncoder>) = (config, Vec::new());
                    self.idle_encoders.set_and_swap(i, &mut entry);
                    entry.1.push(encoder);
                    self.idle_encoders.set(i, entry);
                    proof {
                        assert(self@.idle =~= pre_idle.update(
                            i as int,
                            (config, pre_idle[i as int].1.push(encoder)),
                        ));
                        lemma_total_idle_update(pre_idle, i as int, (config, pre_idle[i as int].1.push(encoder)));
                        assert forall|a: int, b: int|
                            0 <= a < self@.idle.len() && 0 <= b < self@.idle.len() && a != b implies #[trigger] self@.idle[a].0
                                != #[trigger] self@.idle[b].0 by {
                            assert(pre_idle[a].0 != pre_idle[b].0);
                        }
                    }
                }
            },
            None => {
                let mut list: Vec<PooledEncoder> = Vec::new();
                if 0 < self.config.max_encoders_per_config {
                    list.push(encoder);
                }
                self.idle_encoders.push((config, list));
                proof {
                    let x = (config, list@);
                    assert(self@.idle =~= pre_idle.push(x));
                    lemma_total_idle_push(pre_idle, x);
                    assert forall|a: int, b: int|
                        0 <= a < self@.idle.len() && 0 <= b < self@.idle.len() && a != b implies #[trigger] self@.idle[a].0
                            != #[trigger] self@.idle[b].0 by {
                        if a < pre_idle.len() && b < pre_idle.len() {
                            assert(pre_idle[a].0 != pre_idle[b].0);
                        } else if a < pre_idle.len() {
                            assert(pre_idle[a].0 != config);
                        } else {
                            assert(pre_idle[b].0 != config);
                        }
                    }
                    if 0 < self.config.max_encoders_per_config {
                        assert(list@ =~= seq![encoder]);
                    } else {
                        assert(list@ =~= Seq::<PooledEncoder>::empty());
                    }
                }
            },
        }
        self.stats.active_encoders = self.active_encoders.len();
        self.stats.idle_encoders = self.get_total_idle();
    }

    /// Number of active encoders configured as `config`.
    fn active_count_for(&self, config: &EncoderConfig) -> (n: usize)
        requires
            self@.wf(),
        ensures
            n == active_for(self@.active, *config).len(),
    {
        let ghost m = self@.active;
        let ghost target = active_for(m, *config);
        let mut count: usize = 0;
        let ghost mut done: Set<u64> = Set::empty();
        let ghost mut matched: Set<u64> = Set::empty();
        let total_len = self.active_encoders.len();
        proof {
            if m.dom().len() == 0 {
                assert(m.dom() =~= Set::<u64>::empty());
                assert(target =~= Set::<u64>::empty());
            }
            assert(matched =~= done.filter(|x: u64| m[x].config == *config));
        }
        for k in it: self.active_encoders.keys()
            invariant
                m == self.active_encoders@,
                m.dom().finite(),
                target == active_for(m, *config),
                it.seq().unref().to_set() == m.dom(),
                it.seq().no_duplicates(),
                it.seq().len() == m.dom().len(),
                m.dom().len() == total_len,
                0 <= it.index() <= it.seq().len(),
                forall|x: u64|
                    #[trigger] done.contains(x) <==> exists|j: int|
                        0 <= j < it.index() && it.seq().unref()[j] == x,
                done.finite(),
                matched == done.filter(|x: u64| m[x].config == *config),
                matched.finite(),
                count == matched.len(),
                count <= it.index(),
                it.index() == it.seq().len() ==> done == m.dom(),
            ensures
                count == target.len(),
        {
            proof {
                let i = it.index();
                let su = it.seq().unref();
                assert(su[i] == *k);
                assert(su.to_set().contains(*k));
                if done.contains(*k) {
                    let j = choose|j: int| 0 <= j < i && su[j] == *k;
                    assert(it.seq()[j] == it.seq()[i]);
                }
            }
            let b = self.active_encoders.get(k);
            let hit = match b {
                Some(e) => e.config == *config,
                None => false,
            };
            if hit {
                assert(count < total_len);
                count = count + 1;
            }
            proof {
                let i = it.index();
                let old_done = done;
                let old_matched = matched;
                done = done.insert(*k);
                assert forall|x: u64|
                    #[trigger] done.contains(x) <==> exists|j: int|
                        0 <= j < it.index() + 1 && it.seq().unref()[j] == x by {
                    if x == *k {
                        assert(it.seq().unref()[i] == x);
                    } else if exists|j: int| 0 <= j < it.index() + 1 && it.seq().unref()[j] == x {
                        let j = choose|j: int| 0 <= j < it.index() + 1 && it.seq().unref()[j] == x;
                        if j < i {
                            assert(old_done.contains(x));
                        }
                    }
                }
                if hit {
                    matched = old_matched.insert(*k);
                    assert(!old_matched.contains(*k));
                } else {
                    matched = old_matched;
                }
                assert(matched =~= done.filter(|x: u64| m[x].config == *config));
                if it.index() + 1 == m.dom().len() {
                    assert forall|x: u64| m.dom().contains(x) implies done.contains(x) by {
                        assert(it.seq().unref().to_set().contains(x));
                        let j = choose|j: int| 0 <= j < it.seq().unref().len() && it.seq().unref()[j] == x;
                    }
                    assert(done =~= m.dom());
                }
            }
        }
        count
    }

    /// Number of idle encoders over all configurations.
    fn get_total_idle(&self) -> (n: usize)
        requires
            self@.wf(),
        ensures
            n == total_idle(self@.idle),
    {
        let mut total: usize = 0;
        let mut i: usize = 0;
        while i < self.idle_encoders.len()
            invariant
                i <= self.idle_encoders@.len(),
                self@.wf(),
                total == total_idle(self@.idle.subrange(0, i as int)),
            decreases self.idle_encoders@.len() - i,
        {
            proof {
                assert(self@.idle.subrange(0, i + 1).drop_last() =~= self@.idle.subrange(0, i as int));
                lemma_total_idle_prefix(self@.idle, i + 1);
            }
            total = total + self.idle_encoders[i].1.len();
            i = i + 1;
        }
        proof {
            assert(self@.idle.subrange(0, i as int) =~= self@.idle);
        }
        total
    }

    pub fn stats(&self) -> (s: EncoderPoolStats)
        ensures
            s == self@.stats,
    {
        self.stats
    }

    /// Number of tracked active encoders.
    pub fn active_count(&self) -> (n: usize)
        requires
            self@.wf(),
        ensures
            n == self@.active.len(),
    {
        self.active_encoders.len()
    }

    /// Number of idle encoders over all configurations.
    pub fn idle_count(&self) -> (n: usize)
        requires
            self@.wf(),
        ensures
            n == total_idle(self@.idle),
    {
        self.get_total_idle()
    }
}

/// A healthy encoder released while its configuration has room is the one
/// the next acquisition for that configuration hands back.
pub proof fn law_release_then_acquire_reuses(
    p0: EncoderPoolView,
    e: PooledEncoder,
    p1: EncoderPoolView,
    e2: PooledEncoder,
    p2: EncoderPoolView,
)
    requires
        p0.wf(),
        e.is_healthy,
        idle_len(p0.idle, e.config) < p0.config.max_encoders_per_config,
        release_outcome(p0, e, p1),
        p1.wf(),
        acquire_outcome(p1, e.config, p2, e2),
    ensures
        e2 == e,
        idle_len(p2.idle, e.config) == idle_len(p0.idle, e.config),
{
    let cfg = e.config;
    let max = p0.config.max_encoders_per_config;
    if has_config(p0.idle, cfg) {
        let i = config_index(p0.idle, cfg);
        lemma_config_index(p1.idle, cfg, i);
        assert(p1.idle[i].1 == p0.idle[i].1.push(e));
        assert(p1.reuses_for(cfg));
        assert(p2.idle[i].1 =~= p0.idle[i].1);
        lemma_config_index(p2.idle, cfg, i);
    } else {
        let i = p0.idle.len() as int;
        assert(p1.idle[i] == (cfg, seq![e]));
        lemma_config_index(p1.idle, cfg, i);
        assert(p1.reuses_for(cfg));
        assert(p2.idle[i].1 =~= Seq::<PooledEncoder>::empty());
        assert(p2.idle[i].0 == cfg);
    }
}

proof fn lemma_total_idle_prefix(idle: IdleLists, n: int)
    requires
        0 <= n <= idle.len(),
    ensures
        total_idle(idle.subrange(0, n)) <= total_idle(idle),
    decreases idle.len(),
{
    if n < idle.len() {
        lemma_total_idle_prefix(idle.drop_last(), n);
        assert(idle.drop_last().subrange(0, n) =~= idle.subrange(0, n));
    } else {
        assert(idle.subrange(0, n) =~= idle);
    }
}

proof fn lemma_total_mb_prefix(s: Seq<ReferenceFrame>, n: int)
    requires
        0 <= n <= s.len(),
    ensures
        total_mb(s.subrange(0, n)) <= total_mb(s),
    decreases s.len(),
{
    if n < s.len() {
        lemma_total_mb_prefix(s.drop_last(), n);
        assert(s.drop_last().subrange(0, n) =~= s.subrange(0, n));
    } else {
        assert(s.subrange(0, n) =~= s);
    }
}

} // verus!
