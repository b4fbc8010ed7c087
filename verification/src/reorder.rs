//! Circular reorder buffer for out-of-order packet arrivals with bounded memory.
//!
//! The buffer holds `window_size` slots. A packet with sequence number `p` lives
//! in slot `p % window_size`. The window `[window_start, window_start + window_size)`
//! slides forward when a packet arrives beyond it, dropping the oldest slots, so
//! that the packet's own position falls inside the window.

use vstd::prelude::*;

verus! {

/// Bytes held by one slot.
pub open spec fn slot_bytes(o: Option<Vec<u8>>) -> nat {
    match o {
        Some(v) => v.len() as nat,
        None => 0,
    }
}

/// Bytes held by all slots.
pub open spec fn stored_bytes(s: Seq<Option<Vec<u8>>>) -> nat
    decreases s.len(),
{
    if s.len() == 0 {
        0
    } else {
        stored_bytes(s.drop_last()) + slot_bytes(s.last())
    }
}

/// Number of filled slots.
pub open spec fn filled_count(s: Seq<Option<Vec<u8>>>) -> nat
    decreases s.len(),
{
    if s.len() == 0 {
        0
    } else {
        filled_count(s.drop_last()) + if s.last() is Some {
            1nat
        } else {
            0nat
        }
    }
}

/// `a - b`, or zero when `b` is larger.
pub open spec fn sat_sub(a: nat, b: nat) -> nat {
    if a >= b {
        (a - b) as nat
    } else {
        0
    }
}

/// Abstract state of a [`ReorderBuffer`].
pub ghost struct ReorderState {
    pub slots: Seq<Option<Vec<u8>>>,
    pub window_start: u32,
    pub window_size: u32,
    pub max_seen: u32,
    pub bytes: nat,
}

impl ReorderState {
    /// The slot array matches the window size and the byte counter is the
    /// number of bytes held.
    pub open spec fn wf(self) -> bool {
        &&& self.slots.len() == self.window_size
        &&& self.bytes == stored_bytes(self.slots)
    }

    /// Slot index of a sequence number.
    pub open spec fn slot_of(self, p: int) -> int {
        p % (self.window_size as int)
    }

    /// Empties slot `i` and releases its bytes from the counter.
    pub open spec fn clear_slot(self, i: int) -> ReorderState {
        ReorderState {
            slots: self.slots.update(i, None),
            bytes: sat_sub(self.bytes, slot_bytes(self.slots[i])),
            ..self
        }
    }

    /// Drops the slot at the window start and advances the window by one.
    pub open spec fn slide_step(self) -> ReorderState {
        let c = self.clear_slot(self.slot_of(self.window_start as int));
        ReorderState { window_start: (self.window_start + 1) as u32, ..c }
    }

    /// The state after `n` slide steps.
    pub open spec fn slid(self, n: nat) -> ReorderState
        decreases n,
    {
        if n == 0 {
            self
        } else {
            self.slide_step().slid((n - 1) as nat)
        }
    }

    /// How far the window must slide for `p` to fall inside it.
    pub open spec fn insert_advance(self, p: u32) -> nat {
        if p >= self.window_start + self.window_size {
            (p - self.window_start - self.window_size + 1) as nat
        } else {
            0
        }
    }

    /// The state after the slide that makes room for `p`: at most one
    /// window's worth of slots is dropped, and a packet further ahead moves
    /// the window on so that `p` is its newest position.
    pub open spec fn slid_for(self, p: u32) -> ReorderState {
        let adv = self.insert_advance(p);
        if adv <= self.window_size {
            self.slid(adv)
        } else {
            ReorderState {
                window_start: (p + 1 - self.window_size) as u32,
                ..self.slid(self.window_size as nat)
            }
        }
    }

    /// The state after a successful insertion of `p` carrying `data`: a
    /// packet already in `p`'s slot is replaced and its bytes released.
    pub open spec fn after_insert(self, p: u32, data: Vec<u8>) -> ReorderState {
        let s1 = self.slid_for(p);
        let i = s1.slot_of(p as int);
        ReorderState {
            slots: s1.slots.update(i, Some(data)),
            bytes: (s1.bytes - slot_bytes(s1.slots[i]) + data.len()) as nat,
            max_seen: if s1.max_seen >= p {
                s1.max_seen
            } else {
                p
            },
            ..s1
        }
    }

    /// Whether `p` lies inside the current window.
    pub open spec fn in_window(self, p: u32) -> bool {
        self.window_start <= p < self.window_start + self.window_size
    }

    /// The packets held, by sequence number: each position of the window
    /// whose slot is filled.
    pub open spec fn packets(self) -> Map<u32, Vec<u8>> {
        Map::new(
            |q: u32| self.in_window(q) && self.slots[self.slot_of(q as int)] is Some,
            |q: u32| self.slots[self.slot_of(q as int)]->Some_0,
        )
    }

    /// Length of the run of filled slots starting `k` places after the window start.
    pub open spec fn run_from(self, k: nat) -> nat
        decreases self.window_size - k,
    {
        if k >= self.window_size {
            k
        } else if self.slots[self.slot_of(self.window_start + k)] is None {
            k
        } else {
            self.run_from(k + 1)
        }
    }

    /// Whether slot `i` is one of the slots of the `n` oldest window positions.
    pub open spec fn among_oldest(self, n: nat, i: int) -> bool {
        exists|j: int| 0 <= j < n && #[trigger] self.slot_of(self.window_start + j) == i
    }

    /// Number of consecutive filled slots from the window start.
    pub open spec fn run_len(self) -> nat {
        self.run_from(0)
    }

    /// The packets that an in-order flush hands out, oldest first.
    pub open spec fn run_packets(self) -> Seq<Vec<u8>> {
        Seq::new(
            self.run_len(),
            |j: int| self.slots[self.slot_of(self.window_start + j)]->Some_0,
        )
    }
}

/// Errors of [`ReorderBuffer::insert`].
#[derive(Debug, Clone, Copy, PartialEq, Eq, Structural)]
pub enum ReorderError {
    PacketTooOld,
}

/// Circular reorder buffer for managing out-of-order packet arrivals.
#[derive(Debug)]
pub struct ReorderBuffer {
    buffer: Vec<Option<Vec<u8>>>,
    max_seen: u32,
    window_start: u32,
    window_size: u32,
    buffer_size_bytes: usize,
}

impl View for ReorderBuffer {
    type V = ReorderState;

    closed spec fn view(&self) -> ReorderState {
        ReorderState {
            slots: self.buffer@,
            window_start: self.window_start,
            window_size: self.window_size,
            max_seen: self.max_seen,
            bytes: self.buffer_size_bytes as nat,
        }
    }
}

proof fn lemma_stored_bytes_update(s: Seq<Option<Vec<u8>>>, i: int, x: Option<Vec<u8>>)
    requires
        0 <= i < s.len(),
    ensures
        stored_bytes(s.update(i, x)) + slot_bytes(s[i]) == stored_bytes(s) + slot_bytes(x),
    decreases s.len(),
{
    let t = s.update(i, x);
    if i == s.len() - 1 {
        assert(t.drop_last() =~= s.drop_last());
    } else {
        lemma_stored_bytes_update(s.drop_last(), i, x);
        assert(t.drop_last() =~= s.drop_last().update(i, x));
    }
}

proof fn lemma_clear_slot_wf(st: ReorderState, i: int)
    requires
        st.wf(),
        0 <= i < st.slots.len(),
    ensures
        st.clear_slot(i).wf(),
        st.clear_slot(i).bytes == st.bytes - slot_bytes(st.slots[i]),
        stored_bytes(st.clear_slot(i).slots) + slot_bytes(st.slots[i]) == stored_bytes(st.slots),
{
    lemma_stored_bytes_update(st.slots, i, None);
}

/// Facts about `n` slide steps: the window start advances by `n`, the
/// cleared slots are exactly those of the `n` oldest positions, and the
/// byte counter stays well formed.
proof fn lemma_slid(st: ReorderState, n: nat)
    requires
        st.wf(),
        st.window_size > 0,
        st.window_start + n <= u32::MAX,
    ensures
        st.slid(n).wf(),
        st.slid(n).window_start == st.window_start + n,
        st.slid(n).window_size == st.window_size,
        st.slid(n).max_seen == st.max_seen,
        st.slid(n).bytes == st.bytes - (stored_bytes(st.slots) - stored_bytes(st.slid(n).slots)),
        forall|i: int|
            0 <= i < st.slots.len() ==> #[trigger] st.slid(n).slots[i] == if st.among_oldest(n, i) {
                None
            } else {
                st.slots[i]
            },
    decreases n,
{
    if n > 0 {
        let s1 = st.slide_step();
        let i0 = st.slot_of(st.window_start as int);
        lemma_clear_slot_wf(st, i0);
        lemma_slid(s1, (n - 1) as nat);
        assert forall|i: int| 0 <= i < st.slots.len() implies #[trigger] st.slid(n).slots[i]
            == if st.among_oldest(n, i) {
            None
        } else {
            st.slots[i]
        } by {
            let ex_n = st.among_oldest(n, i);
            let ex_1 = s1.among_oldest((n - 1) as nat, i);
            if ex_1 {
                let j = choose|j: int| 0 <= j < n - 1 && #[trigger] s1.slot_of(s1.window_start + j) == i;
                assert(st.slot_of(st.window_start + (j + 1)) == i);
                assert(ex_n);
            } else if i == i0 {
                assert(st.slot_of(st.window_start + 0) == i);
                assert(ex_n);
            } else {
                if ex_n {
                    let j = choose|j: int| 0 <= j < n && #[trigger] st.slot_of(st.window_start + j) == i;
                    if j == 0 {
                        assert(false);
                    } else {
                        assert(s1.slot_of(s1.window_start + (j - 1)) == i);
                        assert(false);
                    }
                }
            }
        }
    }
}

/// `run_from` does not change across a prefix of filled slots.
proof fn lemma_run_from_prefix(st: ReorderState, k: nat)
    requires
        k <= st.window_size,
        forall|j: int| 0 <= j < k ==> #[trigger] st.slots[st.slot_of(st.window_start + j)] is Some,
    ensures
        st.run_len() == st.run_from(k),
    decreases k,
{
    if k > 0 {
        lemma_run_from_prefix(st, (k - 1) as nat);
        assert(st.slots[st.slot_of(st.window_start + (k - 1))] is Some);
    }
}

proof fn lemma_run_from_bound(st: ReorderState, k: nat)
    requires
        k <= st.window_size,
    ensures
        k <= st.run_from(k) <= st.window_size,
    decreases st.window_size - k,
{
    if k < st.window_size && st.slots[st.slot_of(st.window_start + k)] is Some {
        lemma_run_from_bound(st, k + 1);
    }
}

/// Slots of distinct positions within one window are distinct.
proof fn lemma_slot_distinct(size: int, a: int, j1: int, j2: int)
    requires
        size > 0,
        a >= 0,
        0 <= j1 < j2 < size,
    ensures
        (a + j1) % size != (a + j2) % size,
{
    assert((a + j1) % size != (a + j2) % size) by (nonlinear_arith)
        requires
            size > 0,
            a >= 0,
            0 <= j1 < j2 < size,
    {
        let q1 = (a + j1) / size;
        let q2 = (a + j2) / size;
        if (a + j1) % size == (a + j2) % size {
            assert(j2 - j1 == (q2 - q1) * size);
        }
    };
}

impl ReorderBuffer {
    /// Create a new reorder buffer with room for `window_size` packets.
    pub fn new(window_size: u32) -> (b: Self)
        ensures
            b@.wf(),
            b@.window_size == window_size,
            b@.window_start == 0,
            b@.max_seen == 0,
            b@.bytes == 0,
            forall|i: int| 0 <= i < window_size ==> #[trigger] b@.slots[i] is None,
    {
        let capacity = window_size as usize;
        let mut buffer: Vec<Option<Vec<u8>>> = Vec::new();
        let mut i: usize = 0;
        while i < capacity
            invariant
                i <= capacity,
                buffer@.len() == i,
                forall|k: int| 0 <= k < i ==> #[trigger] buffer@[k] is None,
            decreases capacity - i,
        {
            buffer.push(None);
            i = i + 1;
        }
        proof {
            assert(stored_bytes(buffer@) == 0) by {
                lemma_stored_bytes_none(buffer@);
            }
        }
        ReorderBuffer { buffer, max_seen: 0, window_start: 0, window_size, buffer_size_bytes: 0 }
    }

    /// Insert a packet at its sequence number position.
    ///
    /// A packet older than the window start is refused and nothing changes.
    /// A packet beyond the window first slides the window forward so that
    /// the packet's position is the newest of the window, dropping the oldest
    /// slots.
    pub fn insert(&mut self, packet_id: u32, data: Vec<u8>) -> (r: Result<(), ReorderError>)
        requires
            old(self)@.wf(),
            old(self)@.window_size > 0,
            packet_id >= old(self)@.window_start ==> old(self)@.window_start
                + old(self)@.window_size <= u32::MAX,
            packet_id >= old(self)@.window_start + old(self)@.window_size ==> packet_id < u32::MAX,
            packet_id >= old(self)@.window_start ==> old(self)@.after_insert(packet_id, data).bytes
                <= usize::MAX,
        ensures
            final(self)@.wf(),
            packet_id < old(self)@.window_start ==> r == Err::<(), ReorderError>(
                ReorderError::PacketTooOld,
            ) && final(self)@ == old(self)@,
            packet_id >= old(self)@.window_start ==> r == Ok::<(), ReorderError>(())
                && final(self)@ == old(self)@.after_insert(packet_id, data),
            packet_id >= old(self)@.window_start ==> final(self)@.in_window(packet_id)
                && final(self)@.packets() == old(self)@.packets().restrict(
                Set::new(|q: u32| q >= final(self)@.window_start),
            ).insert(packet_id, data),
    {
        proof {
            if packet_id >= self@.window_start {
                lemma_insert_packets(self@, packet_id, data);
            }
        }
        if packet_id < self.window_start {
            return Err(ReorderError::PacketTooOld);
        }
        let ghost st0 = self@;
        if packet_id >= self.window_start + self.window_size {
            let advance = packet_id - self.window_start - self.window_size + 1;
            self.slide_window(advance);
            if advance > self.window_size {
                self.window_start = packet_id + 1 - self.window_size;
            }
        }
        proof {
            let n = st0.insert_advance(packet_id);
            if n <= st0.window_size {
                lemma_slid(st0, n);
            } else {
                lemma_slid(st0, st0.window_size as nat);
            }
        }
        let ghost s1 = self@;
        assert(s1 == st0.slid_for(packet_id));
        let idx = (packet_id % self.window_size) as usize;
        let data_len = data.len();
        proof {
            lemma_stored_bytes_update(s1.slots, idx as int, Some(data));
            lemma_stored_bytes_update(s1.slots, idx as int, None);
        }
        let mut prev: Option<Vec<u8>> = Some(data);
        self.buffer.set_and_swap(idx, &mut prev);
        assert(prev == s1.slots[idx as int]);
        if let Some(old_data) = prev {
            self.buffer_size_bytes = self.buffer_size_bytes - old_data.len();
        }
        self.buffer_size_bytes = self.buffer_size_bytes + data_len;
        if packet_id > self.max_seen {
            self.max_seen = packet_id;
        }
        Ok(())
    }

    /// Take a packet out of the buffer if it is inside the window and present.
    pub fn get(&mut self, packet_id: u32) -> (r: Option<Vec<u8>>)
        requires
            old(self)@.wf(),
            packet_id >= old(self)@.window_start ==> old(self)@.window_start
                + old(self)@.window_size <= u32::MAX,
        ensures
            final(self)@.wf(),
            !old(self)@.in_window(packet_id) ==> r is None && final(self)@ == old(self)@,
            old(self)@.in_window(packet_id) ==> r == old(self)@.slots[old(self)@.slot_of(
                packet_id as int,
            )] && final(self)@ == old(self)@.clear_slot(old(self)@.slot_of(packet_id as int)),
            r == (if old(self)@.packets().contains_key(packet_id) {
                Some(old(self)@.packets()[packet_id])
            } else {
                None::<Vec<u8>>
            }),
            final(self)@.packets() == old(self)@.packets().remove(packet_id),
    {
        proof {
            if self@.in_window(packet_id) {
                lemma_clear_packets(self@, packet_id);
            } else {
                assert(self@.packets() =~= self@.packets().remove(packet_id));
            }
        }
        if packet_id < self.window_start || packet_id >= self.window_start + self.window_size {
            return None;
        }
        let idx = (packet_id % self.window_size) as usize;
        proof {
            lemma_clear_slot_wf(self@, idx as int);
        }
        let mut taken: Option<Vec<u8>> = None;
        self.buffer.set_and_swap(idx, &mut taken);
        match taken {
            Some(data) => {
                self.buffer_size_bytes = self.buffer_size_bytes.saturating_sub(data.len());
                Some(data)
            },
            None => None,
        }
    }

    /// Hand out, oldest first, every packet of the run of filled slots that
    /// starts at the window start, advancing the window past them.
    pub fn flush_ordered(&mut self) -> (r: Vec<Vec<u8>>)
        requires
            old(self)@.wf(),
            old(self)@.window_size > 0,
            old(self)@.window_start + old(self)@.run_len() <= u32::MAX,
        ensures
            final(self)@.wf(),
            r@ == old(self)@.run_packets(),
            final(self)@ == old(self)@.slid(old(self)@.run_len()),
    {
        let ghost st0 = self@;
        let ghost size = self.window_size as int;
        let ghost ws0 = self.window_start as int;
        let mut result: Vec<Vec<u8>> = Vec::new();
        let ghost mut k: nat = 0;
        proof {
            lemma_run_from_bound(st0, 0);
        }
        loop
            invariant_except_break
                st0.wf(),
                st0.window_size > 0,
                size == st0.window_size,
                ws0 == st0.window_start,
                ws0 + st0.run_len() <= u32::MAX,
                k <= st0.run_len(),
                st0.run_len() <= size,
                k <= size,
                self@ == st0.slid(k),
                self.window_size == st0.window_size,
                self.buffer@.len() == size,
                self.window_start == ws0 + k,
                result@.len() == k,
                forall|j: int| 0 <= j < k ==> #[trigger] st0.slots[st0.slot_of(ws0 + j)] is Some,
                forall|j: int|
                    0 <= j < k ==> #[trigger] result@[j] == st0.slots[st0.slot_of(
                        ws0 + j,
                    )]->Some_0,
            ensures
                self@ == st0.slid(st0.run_len()),
                result@ == st0.run_packets(),
                self@.wf(),
            decreases size - k,
        {
            proof {
                lemma_slid(st0, k);
                lemma_run_from_prefix(st0, k);
            }
            let idx = (self.window_start % self.window_size) as usize;
            let mut taken: Option<Vec<u8>> = None;
            proof {
                assert(idx == st0.slot_of(ws0 + k));
                lemma_clear_slot_wf(self@, idx as int);
            }
            let ghost before = self@;
            self.buffer.set_and_swap(idx, &mut taken);
            match taken {
                Some(data) => {
                    proof {
                        // the slot of position k has not been cleared by earlier steps
                        if k < size {
                            if st0.among_oldest(k, idx as int) {
                                let j = choose|j: int| 0 <= j < k && #[trigger] st0.slot_of(ws0 + j) == idx;
                                lemma_slot_distinct(size, ws0, j, k as int);
                            }
                                assert(st0.slots[idx as int] == before.slots[idx as int]);
                            lemma_run_from_bound(st0, k + 1);
                            assert(k + 1 <= st0.run_len());
                        } else {
                            assert(st0.slot_of(ws0 + 0) == idx) by (nonlinear_arith)
                                requires
                                    size > 0,
                                    ws0 >= 0,
                                    k == size,
                                    idx == (ws0 + k) % size,
                                    st0.slot_of(ws0 + 0) == (ws0 + 0) % size,
                            {
                                assert((ws0 + size) % size == ws0 % size) by (nonlinear_arith)
                                    requires
                                        size > 0,
                                ;
                            }
                            assert(before.slots[idx as int] is None);
                            assert(false);
                        }
                    }
                    self.buffer_size_bytes = self.buffer_size_bytes.saturating_sub(data.len());
                    result.push(data);
                    self.window_start = self.window_start + 1;
                    proof {
                        assert(st0.slid(k + 1) == st0.slid(k).slide_step()) by {
                            lemma_slid_succ(st0, k);
                        }
                        k = k + 1;
                    }
                },
                None => {
                    proof {
                        if k < size {
                            if st0.among_oldest(k, idx as int) {
                                let j = choose|j: int| 0 <= j < k && #[trigger] st0.slot_of(ws0 + j) == idx;
                                lemma_slot_distinct(size, ws0, j, k as int);
                            }
                            assert(st0.slots[st0.slot_of(ws0 + k)] is None);
                        }
                        assert(st0.run_len() == k);
                        assert(result@ =~= st0.run_packets());
                        assert(self.buffer@ =~= before.slots);
                        assert(self@ == before);
                    }
                    break;
                },
            }
        }
        result
    }

    /// Slide the window forward by up to `count` positions, dropping old packets.
    fn slide_window(&mut self, count: u32)
        requires
            old(self)@.wf(),
            old(self)@.window_size > 0,
            old(self)@.window_start + old(self)@.window_size <= u32::MAX,
        ensures
            final(self)@ == old(self)@.slid(
                if count <= old(self)@.window_size {
                    count as nat
                } else {
                    old(self)@.window_size as nat
                },
            ),
            final(self)@.wf(),
            final(self)@.window_size == old(self)@.window_size,
    {
        let steps = if count < self.window_size {
            count
        } else {
            self.window_size
        };
        let ghost st0 = self@;
        let mut i: u32 = 0;
        while i < steps
            invariant
                i <= steps,
                steps <= st0.window_size,
                st0.wf(),
                st0.window_size > 0,
                st0.window_start + st0.window_size <= u32::MAX,
                self@ == st0.slid(i as nat),
                self.window_size == st0.window_size,
                self.buffer@.len() == st0.window_size,
                self.window_start == st0.window_start + i,
            decreases steps - i,
        {
            proof {
                lemma_slid(st0, i as nat);
                lemma_clear_slot_wf(self@, (self.window_start % self.window_size) as int);
                lemma_slid_succ(st0, i as nat);
            }
            let idx = (self.window_start % self.window_size) as usize;
            let mut taken: Option<Vec<u8>> = None;
            self.buffer.set_and_swap(idx, &mut taken);
            if let Some(data) = taken {
                self.buffer_size_bytes = self.buffer_size_bytes.saturating_sub(data.len());
            }
            self.window_start = self.window_start + 1;
            i = i + 1;
        }
        proof {
            lemma_slid(st0, i as nat);
        }
    }

    /// Current memory held by buffered packets, as counted by the buffer.
    pub fn memory_usage_bytes(&self) -> (n: usize)
        ensures
            n == self@.bytes,
    {
        self.buffer_size_bytes
    }

    /// Number of packets currently held.
    pub fn packet_count(&self) -> (n: usize)
        requires
            self@.wf(),
        ensures
            n == filled_count(self@.slots),
    {
        let mut count: usize = 0;
        let mut i: usize = 0;
        while i < self.buffer.len()
            invariant
                i <= self.buffer@.len(),
                count == filled_count(self.buffer@.subrange(0, i as int)),
                count <= i,
            decreases self.buffer@.len() - i,
        {
            proof {
                assert(self.buffer@.subrange(0, i + 1).drop_last() =~= self.buffer@.subrange(
                    0,
                    i as int,
                ));
            }
            if self.buffer[i].is_some() {
                count = count + 1;
            }
            i = i + 1;
        }
        proof {
            assert(self.buffer@.subrange(0, i as int) =~= self.buffer@);
        }
        count
    }

    pub fn window_start(&self) -> (w: u32)
        ensures
            w == self@.window_start,
    {
        self.window_start
    }

    pub fn max_seen(&self) -> (m: u32)
        ensures
            m == self@.max_seen,
    {
        self.max_seen
    }
}

/// Clearing the slot of a position inside the window removes exactly that
/// position's packet.
proof fn lemma_clear_packets(st: ReorderState, p: u32)
    requires
        st.wf(),
        st.in_window(p),
    ensures
        st.clear_slot(st.slot_of(p as int)).packets() == st.packets().remove(p),
{
    let i = st.slot_of(p as int);
    let c = st.clear_slot(i);
    let r = st.packets().remove(p);
    assert forall|q: u32| #[trigger] c.packets().contains_key(q) <==> r.contains_key(q) by {
        if c.in_window(q) && q != p {
            if q < p {
                lemma_slot_distinct(st.window_size as int, st.window_start as int, q - st.window_start, p - st.window_start);
            } else {
                lemma_slot_distinct(st.window_size as int, st.window_start as int, p - st.window_start, q - st.window_start);
            }
        }
    }
    assert forall|q: u32| #[trigger] c.packets().contains_key(q) implies c.packets()[q] == r[q] by {
        if q < p {
            lemma_slot_distinct(st.window_size as int, st.window_start as int, q - st.window_start, p - st.window_start);
        } else if q > p {
            lemma_slot_distinct(st.window_size as int, st.window_start as int, p - st.window_start, q - st.window_start);
        }
    }
    assert(c.packets() =~= r);
}

/// For a position `q` at or after the window start, its slot is among those of
/// the `n` oldest positions exactly when `q` is less than `n` places past
/// the start, counted round the window.
proof fn lemma_oldest_slot(st: ReorderState, n: nat, q: int)
    requires
        st.window_size > 0,
        n <= st.window_size,
        q >= st.window_start,
    ensures
        st.among_oldest(n, st.slot_of(q)) <==> (q - st.window_start) % (st.window_size as int) < n,
{
    let m = st.window_size as int;
    let ws = st.window_start as int;
    let d = q - ws;
    let t = d % m;
    vstd::arithmetic::div_mod::lemma_fundamental_div_mod(d, m);
    assert(0 <= t < m) by {
        vstd::arithmetic::div_mod::lemma_mod_bound(d, m);
    }
    assert(q == m * (d / m) + (ws + t));
    vstd::arithmetic::div_mod::lemma_mod_multiples_vanish(d / m, ws + t, m);
    assert(st.slot_of(q) == st.slot_of(ws + t));
    if t < n {
        assert(st.slot_of(st.window_start + t) == st.slot_of(q));
    }
    if st.among_oldest(n, st.slot_of(q)) {
        let j = choose|j: int| 0 <= j < n && #[trigger] st.slot_of(st.window_start + j) == st.slot_of(q);
        if j < t {
            lemma_slot_distinct(m, ws, j, t);
        } else if t < j {
            lemma_slot_distinct(m, ws, t, j);
        }
    }
}

/// The packets held after an insertion: those of the old window at or after
/// the new window start, with the new packet at its own position.
proof fn lemma_insert_packets(st: ReorderState, p: u32, data: Vec<u8>)
    requires
        st.wf(),
        st.window_size > 0,
        p >= st.window_start,
        st.window_start + st.window_size <= u32::MAX,
        p >= st.window_start + st.window_size ==> p < u32::MAX,
    ensures
        st.after_insert(p, data).wf(),
        st.after_insert(p, data).in_window(p),
        st.after_insert(p, data).window_start >= st.window_start,
        st.after_insert(p, data).packets() == st.packets().restrict(
            Set::new(|q: u32| q >= st.after_insert(p, data).window_start),
        ).insert(p, data),
{
    let n = st.insert_advance(p);
    let m = st.window_size as int;
    let ws = st.window_start as int;
    let s1 = st.slid_for(p);
    let a = st.after_insert(p, data);
    let k: nat = if n <= st.window_size { n } else { st.window_size as nat };
    lemma_slid(st, k);
    let sk = st.slid(k);
    lemma_stored_bytes_update(s1.slots, s1.slot_of(p as int), Some(data));
    assert(a.wf());
    assert(a.in_window(p));
    assert(s1.slots == sk.slots);
    assert forall|q: u32| q != p && a.in_window(q) implies a.slots[a.slot_of(q as int)] == (if st.in_window(q) {
        st.slots[st.slot_of(q as int)]
    } else {
        None::<Vec<u8>>
    }) by {
        if q < p {
            lemma_slot_distinct(m, a.window_start as int, q - a.window_start, p - a.window_start);
        } else {
            lemma_slot_distinct(m, a.window_start as int, p - a.window_start, q - a.window_start);
        }
        assert(a.slots[a.slot_of(q as int)] == sk.slots[st.slot_of(q as int)]);
        lemma_oldest_slot(st, k, q as int);
        if st.in_window(q) {
            assert((q - ws) % m == q - ws) by {
                vstd::arithmetic::div_mod::lemma_small_mod((q - ws) as nat, m as nat);
            }
        } else if k == m {
            assert((q - ws) % m < m) by {
                vstd::arithmetic::div_mod::lemma_mod_bound(q - ws, m);
            }
        } else {
            assert(q - ws - m < m);
            assert((q - ws) % m == q - ws - m) by {
                vstd::arithmetic::div_mod::lemma_fundamental_div_mod_converse_mod(q - ws, m, 1, q - ws - m);
            }
        }
    }
    let r = st.packets().restrict(Set::new(|q: u32| q >= a.window_start)).insert(p, data);
    assert forall|q: u32| #[trigger] a.packets().contains_key(q) <==> r.contains_key(q) by {
        if q != p && a.in_window(q) {
            assert(a.slots[a.slot_of(q as int)] == (if st.in_window(q) {
                st.slots[st.slot_of(q as int)]
            } else {
                None::<Vec<u8>>
            }));
        }
    }
    assert forall|q: u32| #[trigger] a.packets().contains_key(q) implies a.packets()[q] == r[q] by {
        if q != p {
            assert(a.slots[a.slot_of(q as int)] == (if st.in_window(q) {
                st.slots[st.slot_of(q as int)]
            } else {
                None::<Vec<u8>>
            }));
        }
    }
    assert(a.packets() =~= r);
}

/// A packet inserted at or after the window start is what a later read of
/// its own sequence number hands back.
pub proof fn law_get_returns_inserted(st: ReorderState, p: u32, data: Vec<u8>)
    requires
        st.wf(),
        st.window_size > 0,
        p >= st.window_start,
        st.window_start + st.window_size <= u32::MAX,
        p >= st.window_start + st.window_size ==> p < u32::MAX,
    ensures
        st.after_insert(p, data).in_window(p),
        st.after_insert(p, data).packets().contains_key(p),
        st.after_insert(p, data).packets()[p] == data,
{
    lemma_insert_packets(st, p, data);
}

/// An insertion stores the packet at its own sequence number and moves no
/// other packet: every other packet held afterwards was held before under
/// the same number, and only packets before the new window start are dropped.
pub proof fn law_insert_keeps_positions(st: ReorderState, p: u32, data: Vec<u8>)
    requires
        st.wf(),
        st.window_size > 0,
        p >= st.window_start,
        st.window_start + st.window_size <= u32::MAX,
        p >= st.window_start + st.window_size ==> p < u32::MAX,
    ensures
        st.after_insert(p, data).packets() == st.packets().restrict(
            Set::new(|q: u32| q >= st.after_insert(p, data).window_start),
        ).insert(p, data),
{
    lemma_insert_packets(st, p, data);
}

/// Once read, a packet is gone: a second read of the same sequence number finds nothing.
pub proof fn law_get_removes(st: ReorderState, p: u32)
    requires
        st.wf(),
        st.window_size > 0,
        st.in_window(p),
    ensures
        !st.clear_slot(st.slot_of(p as int)).packets().contains_key(p),
        st.clear_slot(st.slot_of(p as int)).in_window(p),
{
    lemma_clear_packets(st, p);
}

/// The byte counter is the number of bytes held, and it stays so across an
/// insertion, a read and a flush.
pub proof fn law_exact_accounting(st: ReorderState, p: u32, data: Vec<u8>)
    requires
        st.wf(),
        st.window_size > 0,
        st.window_start + st.window_size <= u32::MAX,
    ensures
        st.bytes == stored_bytes(st.slots),
        p >= st.window_start && (p >= st.window_start + st.window_size ==> p < u32::MAX)
            ==> st.after_insert(p, data).bytes == stored_bytes(st.after_insert(p, data).slots),
        st.in_window(p) ==> st.clear_slot(st.slot_of(p as int)).bytes == stored_bytes(
            st.clear_slot(st.slot_of(p as int)).slots,
        ),
        st.slid(st.run_len()).bytes == stored_bytes(st.slid(st.run_len()).slots),
{
    if p >= st.window_start && (p >= st.window_start + st.window_size ==> p < u32::MAX) {
        lemma_insert_packets(st, p, data);
    }
    if st.in_window(p) {
        lemma_clear_slot_wf(st, st.slot_of(p as int));
    }
    lemma_run_from_bound(st, 0);
    lemma_slid(st, st.run_len());
}

proof fn lemma_stored_bytes_none(s: Seq<Option<Vec<u8>>>)
    requires
        forall|k: int| 0 <= k < s.len() ==> #[trigger] s[k] is None,
    ensures
        stored_bytes(s) == 0,
    decreases s.len(),
{
    if s.len() > 0 {
        lemma_stored_bytes_none(s.drop_last());
    }
}

proof fn lemma_slid_succ(st: ReorderState, n: nat)
    ensures
        st.slid(n + 1) == st.slid(n).slide_step(),
    decreases n,
{
    if n > 0 {
        lemma_slid_succ(st.slide_step(), (n - 1) as nat);
        assert(st.slid(n) == st.slide_step().slid((n - 1) as nat));
        assert(st.slid(n + 1) == st.slide_step().slid(n));
    } else {
        assert(st.slid(1) == st.slide_step().slid(0));
    }
}

} // verus!
