//! Reuse of frame buffers: a bounded pool of zero-filled byte buffers.

use vstd::prelude::*;

use std::collections::VecDeque;
use std::time::Duration;
use std::time::Instant;

verus! {

/// A point in time of the monotonic clock (`std::time::Instant`).
#[verifier::external_type_specification]
#[verifier::external_body]
pub struct ExInstant(Instant);

/// The current instant (`Instant::now`); it depends on the clock, so nothing is stated of it.
#[verifier::external_body]
fn instant_now() -> Instant {
    Instant::now()
}

/// The time elapsed since `start` (`Instant::elapsed`); it depends on the clock, so nothing is
/// stated of it.
#[verifier::external_body]
fn instant_elapsed(start: &Instant) -> Duration {
    start.elapsed()
}

/// The capacity of a buffer (`Vec::capacity`). It depends on the allocator; the documentation
/// promises only that it is at least the length, and that is all this states.
#[verifier::external_body]
fn buffer_capacity(buffer: &Vec<u8>) -> (r: usize)
    ensures
        r >= buffer@.len(),
{
    buffer.capacity()
}

/// `n` zero bytes.
pub open spec fn zeros(n: nat) -> Seq<u8> {
    Seq::new(n, |i: int| 0u8)
}

/// The pool as values.
pub struct PoolView {
    /// Buffers ready to be handed out, the next one first.
    pub available: Seq<Seq<u8>>,
    /// Size in bytes of the buffers handed out.
    pub buffer_size: nat,
    /// Most buffers the pool allocates for itself, and most it keeps.
    pub max_buffers: nat,
    /// Buffers the pool counts as allocated.
    pub allocated: nat,
}

/// The pool after handing out a buffer: a kept buffer is reused first; otherwise a new one is
/// counted while the count is below the limit; past the limit a temporary buffer is made and
/// nothing is counted.
pub open spec fn after_get(v: PoolView) -> PoolView {
    if v.available.len() > 0 {
        PoolView { available: v.available.drop_first(), ..v }
    } else if v.allocated < v.max_buffers {
        PoolView { allocated: v.allocated + 1, ..v }
    } else {
        v
    }
}

/// The pool after a buffer comes back: it is kept when it is large enough and the pool holds
/// fewer than the limit; otherwise it is dropped.
pub open spec fn after_return(v: PoolView, large_enough: bool, buffer: Seq<u8>) -> PoolView {
    if large_enough && v.available.len() < v.max_buffers {
        PoolView { available: v.available.push(buffer), ..v }
    } else {
        v
    }
}

/// How many kept buffers a clean-up drops: all but half of them (at least one stays).
pub open spec fn cleanup_count(len: nat) -> nat {
    let keep: nat = if len / 2 > 1 { len / 2 } else { 1 };
    if len > keep { (len - keep) as nat } else { 0 }
}

/// The pool after a clean-up: the last `cleanup_count` kept buffers are dropped and the
/// allocation count goes down by as many, not below zero.
pub open spec fn after_cleanup(v: PoolView) -> PoolView {
    let n = cleanup_count(v.available.len());
    PoolView {
        available: v.available.take(v.available.len() - n),
        allocated: if v.allocated > n { (v.allocated - n) as nat } else { 0 },
        ..v
    }
}

/// A pool of frame buffers that reuses memory between frames.
pub struct FrameBufferPool {
    available_buffers: VecDeque<Vec<u8>>,
    buffer_size: usize,
    max_buffers: usize,
    allocated_count: usize,
    created_at: Instant,
}

/// Pool statistics.
#[derive(Debug)]
pub struct PoolStats {
    /// Buffers ready to be handed out.
    pub available_count: usize,
    /// Buffers the pool counts as allocated.
    pub allocated_count: usize,
    /// The pool's limit.
    pub max_buffers: usize,
    /// Size in bytes of the buffers.
    pub buffer_size: usize,
    /// Time since the pool was made.
    pub uptime: Duration,
}

impl Clone for PoolStats {
    fn clone(&self) -> (r: Self)
        ensures
            r == *self,
    {
        PoolStats {
            available_count: self.available_count,
            allocated_count: self.allocated_count,
            max_buffers: self.max_buffers,
            buffer_size: self.buffer_size,
            uptime: self.uptime,
        }
    }
}

impl View for FrameBufferPool {
    type V = PoolView;

    closed spec fn view(&self) -> PoolView {
        PoolView {
            available: self.available_buffers@.map_values(|b: Vec<u8>| b@),
            buffer_size: self.buffer_size as nat,
            max_buffers: self.max_buffers as nat,
            allocated: self.allocated_count as nat,
        }
    }
}

/// A buffer of `n` zero bytes.
fn zero_buffer(n: usize) -> (r: Vec<u8>)
    ensures
        r@ == zeros(n as nat),
{
    let mut r: Vec<u8> = Vec::new();
    let mut i: usize = 0;
    while i < n
        invariant
            i <= n,
            r@ == zeros(i as nat),
        decreases n - i,
    {
        r.push(0u8);
        i = i + 1;
        assert(r@ =~= zeros(i as nat));
    }
    r
}

impl FrameBufferPool {
    /// A pool whose buffers hold `buffer_size` bytes, with `initial_count` zero-filled buffers
    /// ready and allocated, and at most `max_buffers` buffers.
    pub fn new(buffer_size: usize, initial_count: usize, max_buffers: usize) -> (r: Self)
        ensures
            r@ == (PoolView {
                available: Seq::new(initial_count as nat, |i: int| zeros(buffer_size as nat)),
                buffer_size: buffer_size as nat,
                max_buffers: max_buffers as nat,
                allocated: initial_count as nat,
            }),
    {
        let mut buffers: VecDeque<Vec<u8>> = VecDeque::with_capacity(max_buffers);
        let mut i: usize = 0;
        while i < initial_count
            invariant
                i <= initial_count,
                buffers@.map_values(|b: Vec<u8>| b@) =~= Seq::new(i as nat, |j: int| zeros(buffer_size as nat)),
            decreases initial_count - i,
        {
            let b = zero_buffer(buffer_size);
            let ghost before = buffers@;
            buffers.push_back(b);
            assert(buffers@ =~= before.push(b));
            assert(buffers@.map_values(|b: Vec<u8>| b@) =~= before.map_values(|b: Vec<u8>| b@).push(b@));
            i = i + 1;
        }
        FrameBufferPool {
            available_buffers: buffers,
            buffer_size,
            max_buffers,
            allocated_count: initial_count,
            created_at: instant_now(),
        }
    }

    /// Hands out a buffer of `buffer_size` zero bytes: a kept buffer is reused first; otherwise
    /// a new one is counted while the count is below the limit; past the limit a temporary
    /// buffer is made without being counted.
    pub fn get_buffer(&mut self) -> (r: Vec<u8>)
        ensures
            r@ == zeros(old(self)@.buffer_size),
            final(self)@ == after_get(old(self)@),
    {
        let front = self.available_buffers.pop_front();
        if let Some(mut buffer) = front {
            assert(self@.available =~= old(self)@.available.drop_first());
            buffer.clear();
            buffer.resize(self.buffer_size, 0u8);
            assert(buffer@ =~= zeros(self.buffer_size as nat)) by {
                assert forall|i: int| 0 <= i < buffer@.len() implies buffer@[i] == 0u8 by {
                    assert(cloned::<u8>(0u8, buffer@[i]));
                }
            }
            buffer
        } else if self.allocated_count < self.max_buffers {
            self.allocated_count = self.allocated_count + 1;
            zero_buffer(self.buffer_size)
        } else {
            zero_buffer(self.buffer_size)
        }
    }

    /// Takes back a buffer whose capacity is `capacity`: it is kept when the capacity reaches
    /// `buffer_size` and the pool holds fewer than `max_buffers`, otherwise it is dropped.
    pub fn return_buffer_with_capacity(&mut self, buffer: Vec<u8>, capacity: usize)
        ensures
            final(self)@ == after_return(old(self)@, capacity >= old(self)@.buffer_size, buffer@),
    {
        if capacity >= self.buffer_size {
            if self.available_buffers.len() < self.max_buffers {
                let ghost b = buffer@;
                self.available_buffers.push_back(buffer);
                assert(self@.available =~= old(self)@.available.push(b));
            }
        }
    }

    /// Takes back a buffer: it is kept when its capacity reaches `buffer_size` and the pool
    /// holds fewer than `max_buffers`, otherwise it is dropped. A buffer of full length is
    /// always large enough; for a shorter one the allocator's capacity decides.
    pub fn return_buffer(&mut self, buffer: Vec<u8>)
        ensures
            buffer@.len() >= old(self)@.buffer_size ==> final(self)@ == after_return(old(self)@, true, buffer@),
            final(self)@ == after_return(old(self)@, true, buffer@) || final(self)@ == old(self)@,
    {
        let capacity = buffer_capacity(&buffer);
        self.return_buffer_with_capacity(buffer, capacity);
    }

    /// The pool's statistics.
    pub fn get_stats(&self) -> (r: PoolStats)
        ensures
            r.available_count == self@.available.len(),
            r.allocated_count == self@.allocated,
            r.max_buffers == self@.max_buffers,
            r.buffer_size == self@.buffer_size,
    {
        PoolStats {
            available_count: self.available_buffers.len(),
            allocated_count: self.allocated_count,
            max_buffers: self.max_buffers,
            buffer_size: self.buffer_size,
            uptime: instant_elapsed(&self.created_at),
        }
    }

    /// Drops kept buffers until half of them remain (at least one stays), lowering the
    /// allocation count by as many, not below zero.
    pub fn cleanup_unused(&mut self)
        ensures
            final(self)@ == after_cleanup(old(self)@),
    {
        let len = self.available_buffers.len();
        let half = len / 2;
        let keep_count = if half > 1 { half } else { 1 };
        let remove_count = len.saturating_sub(keep_count);
        let mut i: usize = 0;
        while i < remove_count
            invariant
                remove_count as nat == cleanup_count(old(self)@.available.len()),
                i <= remove_count,
                remove_count <= old(self)@.available.len(),
                self@.available == old(self)@.available.take(old(self)@.available.len() - i),
                self@.allocated == (if old(self)@.allocated > i { (old(self)@.allocated - i) as nat } else { 0 }),
                self@.buffer_size == old(self)@.buffer_size,
                self@.max_buffers == old(self)@.max_buffers,
            decreases remove_count - i,
        {
            let ghost before = self@.available;
            let ghost before_vec = self.available_buffers@;
            assert(before.len() == old(self)@.available.len() - i);
            self.available_buffers.pop_back();
            assert(self.available_buffers@ =~= before_vec.drop_last());
            assert(self@.available =~= before.drop_last());
            assert(self@.available =~= old(self)@.available.take(old(self)@.available.len() - (i + 1)));
            self.allocated_count = self.allocated_count.saturating_sub(1);
            i = i + 1;
        }
        assert(self@ == after_cleanup(old(self)@));
    }
}


/// The pool never counts more buffers than its limit, and never keeps more than its limit:
/// handing out, taking back and cleaning up all preserve both bounds.
pub proof fn lemma_pool_stays_bounded(v: PoolView, large_enough: bool, buffer: Seq<u8>)
    requires
        v.allocated <= v.max_buffers,
        v.available.len() <= v.max_buffers,
    ensures
        after_get(v).allocated <= after_get(v).max_buffers,
        after_get(v).available.len() <= after_get(v).max_buffers,
        after_return(v, large_enough, buffer).allocated <= v.max_buffers,
        after_return(v, large_enough, buffer).available.len() <= v.max_buffers,
        after_cleanup(v).allocated <= v.max_buffers,
        after_cleanup(v).available.len() <= v.max_buffers,
        after_get(v).max_buffers == v.max_buffers,
        after_return(v, large_enough, buffer).max_buffers == v.max_buffers,
        after_cleanup(v).max_buffers == v.max_buffers,
{
}

/// A buffer that comes back is kept, at the end, exactly when it is large enough and the
/// pool holds fewer than its limit; nothing else of the pool changes. So every large enough
/// buffer returned to a pool with room is kept, however many are kept already.
pub proof fn lemma_return_keeps_while_room(v: PoolView, large_enough: bool, buffer: Seq<u8>)
    ensures
        large_enough && v.available.len() < v.max_buffers ==> after_return(v, large_enough, buffer).available
            == v.available.push(buffer),
        large_enough && v.available.len() < v.max_buffers ==> after_return(v, large_enough, buffer).available.len()
            == v.available.len() + 1,
        !(large_enough && v.available.len() < v.max_buffers) ==> after_return(v, large_enough, buffer)
            == v,
        after_return(v, large_enough, buffer).allocated == v.allocated,
        after_return(v, large_enough, buffer).buffer_size == v.buffer_size,
        after_return(v, large_enough, buffer).max_buffers == v.max_buffers,
{
}

/// A buffer given back to a pool with nothing kept and room to keep it is the one handed out
/// next, and the pool is then as it was.
pub proof fn lemma_return_then_get(v: PoolView, buffer: Seq<u8>)
    requires
        v.available.len() == 0,
        v.max_buffers > 0,
    ensures
        after_return(v, true, buffer).available == seq![buffer],
        after_get(after_return(v, true, buffer)) == v,
{
    assert(v.available.push(buffer).drop_first() =~= v.available);
    assert(v.available.push(buffer) =~= seq![buffer]);
}

/// A clean-up never adds anything: it keeps the first half of the kept buffers (at least one
/// of them when there are any), and the allocation count does not grow.
pub proof fn lemma_cleanup_shrinks(v: PoolView)
    ensures
        after_cleanup(v).available.len() <= v.available.len(),
        after_cleanup(v).allocated <= v.allocated,
        v.available.len() > 0 ==> after_cleanup(v).available.len() >= 1,
        v.available.len() >= 2 ==> after_cleanup(v).available.len() == v.available.len() / 2,
        forall|i: int|
            0 <= i < after_cleanup(v).available.len() ==> #[trigger] after_cleanup(v).available[i]
                == v.available[i],
{
}


/// What identifies a cached texture: width, height, depth, format code and usage bits.
pub type TextureKey = (u32, u32, u32, u32, u32);

/// The texture cache's slots as values: the key of the texture each slot holds, if any, and
/// how often each slot was used.
pub struct TextureSlotsView {
    pub keys: Seq<Option<TextureKey>>,
    pub usage: Seq<u32>,
}

/// Where a requested texture comes from.
#[derive(Debug, Clone, Copy, PartialEq, Eq, Structural)]
pub enum SlotChoice {
    /// The texture already cached in this slot is reused.
    Reuse(usize),
    /// A new texture is created in this free slot.
    Create(usize),
    /// Every slot is taken: the least used one (the first of them on a tie) gets a new texture.
    Replace(usize),
}

/// The first slot holding a texture with key `key`, if any.
pub open spec fn first_match(keys: Seq<Option<TextureKey>>, key: TextureKey) -> Option<int>
    decreases keys.len(),
{
    if keys.len() == 0 {
        None
    } else {
        match first_match(keys.drop_last(), key) {
            Some(i) => Some(i),
            None => if keys.last() == Some(key) {
                Some(keys.len() - 1)
            } else {
                None
            },
        }
    }
}

/// The first empty slot, if any.
pub open spec fn first_free(keys: Seq<Option<TextureKey>>) -> Option<int>
    decreases keys.len(),
{
    if keys.len() == 0 {
        None
    } else {
        match first_free(keys.drop_last()) {
            Some(i) => Some(i),
            None => if keys.last() is None {
                Some(keys.len() - 1)
            } else {
                None
            },
        }
    }
}

/// Whether slot `m` has the smallest use count, and no earlier slot has as small a one.
pub open spec fn is_first_least_used(usage: Seq<u32>, m: int) -> bool {
    &&& 0 <= m < usage.len()
    &&& forall|j: int| 0 <= j < usage.len() ==> usage[m] <= #[trigger] usage[j]
    &&& forall|j: int| 0 <= j < m ==> usage[m] < #[trigger] usage[j]
}

/// The slots after a clean-up: an unused slot that holds a texture is emptied, and every used
/// slot's count goes down by one.
pub open spec fn cleaned_slots(v: TextureSlotsView) -> TextureSlotsView {
    TextureSlotsView {
        keys: Seq::new(
            v.keys.len(),
            |i: int| if v.usage[i] == 0 { None } else { v.keys[i] },
        ),
        usage: Seq::new(
            v.usage.len(),
            |i: int| if v.usage[i] > 0 { (v.usage[i] - 1) as u32 } else { 0u32 },
        ),
    }
}

/// The sum of the use counts.
pub open spec fn usage_sum(usage: Seq<u32>) -> nat
    decreases usage.len(),
{
    if usage.len() == 0 {
        0
    } else {
        usage_sum(usage.drop_last()) + usage.last() as nat
    }
}

/// The number of slots that hold a texture.
pub open spec fn cached_count(keys: Seq<Option<TextureKey>>) -> nat
    decreases keys.len(),
{
    if keys.len() == 0 {
        0
    } else {
        cached_count(keys.drop_last()) + if keys.last() is Some { 1nat } else { 0nat }
    }
}

/// The bookkeeping of the GPU texture cache: which texture each slot holds and how often it
/// was used. The textures themselves live beside it, slot for slot.
pub struct TextureSlots {
    keys: Vec<Option<TextureKey>>,
    usage: Vec<u32>,
}

impl View for TextureSlots {
    type V = TextureSlotsView;

    closed spec fn view(&self) -> TextureSlotsView {
        TextureSlotsView { keys: self.keys@, usage: self.usage@ }
    }
}

impl TextureSlots {
    /// Each slot has a count.
    pub closed spec fn wf(&self) -> bool {
        self.keys@.len() == self.usage@.len()
    }

    /// Whether every count can still grow by one.
    pub open spec fn has_headroom(v: TextureSlotsView) -> bool {
        forall|i: int| 0 <= i < v.usage.len() ==> #[trigger] v.usage[i] < u32::MAX
    }

    /// `capacity` empty slots, all counts zero.
    pub fn new(capacity: usize) -> (r: Self)
        ensures
            r.wf(),
            r@.keys == Seq::new(capacity as nat, |i: int| None::<TextureKey>),
            r@.usage == Seq::new(capacity as nat, |i: int| 0u32),
    {
        let mut keys: Vec<Option<TextureKey>> = Vec::new();
        let mut usage: Vec<u32> = Vec::new();
        let mut i: usize = 0;
        while i < capacity
            invariant
                i <= capacity,
                keys@ == Seq::new(i as nat, |j: int| None::<TextureKey>),
                usage@ == Seq::new(i as nat, |j: int| 0u32),
            decreases capacity - i,
        {
            keys.push(None);
            usage.push(0);
            i = i + 1;
            assert(keys@ =~= Seq::new(i as nat, |j: int| None::<TextureKey>));
            assert(usage@ =~= Seq::new(i as nat, |j: int| 0u32));
        }
        TextureSlots { keys, usage }
    }

    /// Whether every count can still grow by one (see `has_headroom`).
    pub fn headroom(&self) -> (r: bool)
        requires
            self.wf(),
        ensures
            r == Self::has_headroom(self@),
    {
        let ghost v = self@;
        assert(v.usage == self.usage@);
        let mut i: usize = 0;
        while i < self.usage.len()
            invariant
                v == self@,
                v.usage == self.usage@,
                i <= self.usage@.len(),
                forall|j: int| 0 <= j < i ==> #[trigger] self.usage@[j] < u32::MAX,
            decreases self.usage@.len() - i,
        {
            if self.usage[i] == u32::MAX {
                assert(!Self::has_headroom(v)) by {
                    assert(0 <= i < v.usage.len());
                    assert(!(v.usage[i as int] < u32::MAX));
                }
                return false;
            }
            i = i + 1;
        }
        true
    }

    /// Picks the slot for a texture with key `key`: the first slot holding such a texture is
    /// reused and counted; otherwise the first free slot takes it with count 1; otherwise the
    /// first least-used slot is given it with count 1.
    pub fn acquire(&mut self, key: TextureKey) -> (r: SlotChoice)
        requires
            old(self).wf(),
            old(self)@.keys.len() > 0,
            Self::has_headroom(old(self)@),
        ensures
            final(self).wf(),
            final(self)@.keys.len() == old(self)@.keys.len(),
            match first_match(old(self)@.keys, key) {
                Some(i) => r == SlotChoice::Reuse(i as usize) && final(self)@.keys == old(self)@.keys
                    && final(self)@.usage == old(self)@.usage.update(i, (old(self)@.usage[i] + 1) as u32),
                None => match first_free(old(self)@.keys) {
                    Some(i) => r == SlotChoice::Create(i as usize) && final(self)@.keys == old(
                        self,
                    )@.keys.update(i, Some(key)) && final(self)@.usage == old(self)@.usage.update(i, 1u32),
                    None => r matches SlotChoice::Replace(m) && is_first_least_used(old(self)@.usage, m as int)
                        && final(self)@.keys == old(self)@.keys.update(m as int, Some(key))
                        && final(self)@.usage == old(self)@.usage.update(m as int, 1u32),
                },
            },
    {
        let n = self.keys.len();
        let mut i: usize = 0;
        while i < n
            invariant
                n == self.keys@.len(),
                n == self.usage@.len(),
                self.keys@ == old(self)@.keys,
                self.usage@ == old(self)@.usage,
                Self::has_headroom(old(self)@),
                i <= n,
                first_match(self.keys@.take(i as int), key) is None,
            decreases n - i,
        {
            proof {
                assert(self.keys@.take(i + 1).drop_last() =~= self.keys@.take(i as int));
            }
            if self.keys[i] == Some(key) {
                proof {
                    lemma_first_prefix(self.keys@, key, i as int);
                }
                let c = self.usage[i];
                self.usage.set(i, c + 1);
                return SlotChoice::Reuse(i);
            }
            i = i + 1;
        }
        assert(self.keys@.take(n as int) =~= self.keys@);
        let mut i: usize = 0;
        while i < n
            invariant
                n == self.keys@.len(),
                n == self.usage@.len(),
                self.keys@ == old(self)@.keys,
                self.usage@ == old(self)@.usage,
                first_match(self.keys@, key) is None,
                i <= n,
                first_free(self.keys@.take(i as int)) is None,
            decreases n - i,
        {
            proof {
                assert(self.keys@.take(i + 1).drop_last() =~= self.keys@.take(i as int));
            }
            if self.keys[i].is_none() {
                proof {
                    lemma_free_prefix(self.keys@, i as int);
                }
                self.keys.set(i, Some(key));
                self.usage.set(i, 1);
                return SlotChoice::Create(i);
            }
            i = i + 1;
        }
        assert(self.keys@.take(n as int) =~= self.keys@);
        let mut m: usize = 0;
        let mut j: usize = 1;
        while j < n
            invariant
                n == self.usage@.len(),
                n > 0,
                self.usage@ == old(self)@.usage,
                1 <= j <= n,
                m < j,
                forall|k: int| 0 <= k < j ==> self.usage@[m as int] <= #[trigger] self.usage@[k],
                forall|k: int| 0 <= k < m ==> self.usage@[m as int] < #[trigger] self.usage@[k],
            decreases n - j,
        {
            if self.usage[j] < self.usage[m] {
                m = j;
            }
            j = j + 1;
        }
        self.keys.set(m, Some(key));
        self.usage.set(m, 1);
        SlotChoice::Replace(m)
    }

    /// Empties every unused slot that holds a texture and lowers every other count by one
    /// (see `cleaned_slots`).
    pub fn cleanup(&mut self)
        requires
            old(self).wf(),
        ensures
            final(self).wf(),
            final(self)@ == cleaned_slots(old(self)@),
    {
        let n = self.keys.len();
        let ghost ov = self@;
        let ghost target = cleaned_slots(ov);
        assert(ov.keys == self.keys@ && ov.usage == self.usage@);
        let mut i: usize = 0;
        while i < n
            invariant
                ov == old(self)@,
                target == cleaned_slots(ov),
                n == self.keys@.len(),
                n == self.usage@.len(),
                n == ov.keys.len(),
                n == ov.usage.len(),
                i <= n,
                forall|k: int| i <= k < n ==> self.keys@[k] == ov.keys[k] && self.usage@[k] == ov.usage[k],
                forall|k: int| 0 <= k < i ==> self.keys@[k] == target.keys[k] && self.usage@[k]
                    == target.usage[k],
            decreases n - i,
        {
            let c = self.usage[i];
            let ghost k0 = self.keys@;
            let ghost u0 = self.usage@;
            if c == 0 {
                if self.keys[i].is_some() {
                    self.keys.set(i, None);
                }
            } else {
                self.usage.set(i, c - 1);
            }
            assert(self.keys@[i as int] == target.keys[i as int]);
            assert(self.usage@[i as int] == target.usage[i as int]);
            assert(forall|k: int| 0 <= k < n && k != i ==> self.keys@[k] == k0[k] && self.usage@[k] == u0[k]);
            i = i + 1;
        }
        assert(self@.keys =~= target.keys);
        assert(self@.usage =~= target.usage);
    }

    /// The number of slots holding a texture.
    pub fn cached_textures(&self) -> (r: usize)
        requires
            self.wf(),
        ensures
            r == cached_count(self@.keys),
    {
        let mut c: usize = 0;
        let mut i: usize = 0;
        while i < self.keys.len()
            invariant
                i <= self.keys@.len(),
                c == cached_count(self.keys@.take(i as int)),
                c <= i,
            decreases self.keys@.len() - i,
        {
            proof {
                assert(self.keys@.take(i + 1).drop_last() =~= self.keys@.take(i as int));
            }
            if self.keys[i].is_some() {
                c = c + 1;
            }
            i = i + 1;
        }
        assert(self.keys@.take(self.keys@.len() as int) =~= self.keys@);
        c
    }

    /// The sum of the use counts.
    pub fn total_usage(&self) -> (r: u64)
        requires
            self.wf(),
            self@.usage.len() <= u32::MAX,
        ensures
            r == usage_sum(self@.usage),
    {
        let mut total: u64 = 0;
        let mut i: usize = 0;
        while i < self.usage.len()
            invariant
                i <= self.usage@.len(),
                self.usage@.len() <= u32::MAX,
                total == usage_sum(self.usage@.take(i as int)),
                total <= i * (u32::MAX as int),
            decreases self.usage@.len() - i,
        {
            proof {
                assert(self.usage@.take(i + 1).drop_last() =~= self.usage@.take(i as int));
                assert(i * (u32::MAX as int) + u32::MAX as int == (i + 1) * (u32::MAX as int)) by (nonlinear_arith);
                assert((i + 1) * (u32::MAX as int) <= u64::MAX) by (nonlinear_arith)
                    requires i < u32::MAX;
            }
            total = total + self.usage[i] as u64;
            i = i + 1;
        }
        assert(self.usage@.take(self.usage@.len() as int) =~= self.usage@);
        total
    }

    /// Whether slot `i` holds a texture.
    pub fn slot_occupied(&self, i: usize) -> (r: bool)
        requires
            i < self@.keys.len(),
        ensures
            r == self@.keys[i as int] is Some,
    {
        self.keys[i].is_some()
    }

    /// The number of slots.
    pub fn capacity(&self) -> (r: usize)
        ensures
            r == self@.keys.len(),
    {
        self.keys.len()
    }
}

/// When `first_match` of a prefix is none and the next slot matches, that slot is the first
/// match of the whole sequence.
proof fn lemma_first_prefix(keys: Seq<Option<TextureKey>>, key: TextureKey, i: int)
    requires
        0 <= i < keys.len(),
        first_match(keys.take(i), key) is None,
        keys[i] == Some(key),
    ensures
        first_match(keys, key) == Some(i),
    decreases keys.len(),
{
    if i < keys.len() - 1 {
        assert(keys.drop_last().take(i) =~= keys.take(i));
        lemma_first_prefix(keys.drop_last(), key, i);
    } else {
        assert(keys.drop_last() =~= keys.take(i));
    }
}

/// When `first_free` of a prefix is none and the next slot is empty, that slot is the first
/// free one of the whole sequence.
proof fn lemma_free_prefix(keys: Seq<Option<TextureKey>>, i: int)
    requires
        0 <= i < keys.len(),
        first_free(keys.take(i)) is None,
        keys[i] is None,
    ensures
        first_free(keys) == Some(i),
    decreases keys.len(),
{
    if i < keys.len() - 1 {
        assert(keys.drop_last().take(i) =~= keys.take(i));
        lemma_free_prefix(keys.drop_last(), i);
    } else {
        assert(keys.drop_last() =~= keys.take(i));
    }
}

/// Fewer occupied slots, slot by slot, means no more occupied slots in all.
proof fn lemma_cached_count_mono(a: Seq<Option<TextureKey>>, b: Seq<Option<TextureKey>>)
    requires
        a.len() == b.len(),
        forall|i: int| 0 <= i < a.len() && (#[trigger] a[i]) is Some ==> b[i] is Some,
    ensures
        cached_count(a) <= cached_count(b),
    decreases a.len(),
{
    if a.len() > 0 {
        let a1 = a.drop_last();
        let b1 = b.drop_last();
        assert forall|i: int| 0 <= i < a1.len() && (#[trigger] a1[i]) is Some implies b1[i] is Some by {
            assert(a1[i] == a[i] && b1[i] == b[i]);
        }
        lemma_cached_count_mono(a1, b1);
        assert(a.last() == a[a.len() - 1]);
    }
}

/// A clean-up never fills a slot or raises a count: the cache holds no more textures
/// afterwards, each slot keeps its texture or loses it, and the counts do not grow.
pub proof fn lemma_cleanup_never_adds(v: TextureSlotsView)
    requires
        v.keys.len() == v.usage.len(),
    ensures
        cleaned_slots(v).keys.len() == v.keys.len(),
        cached_count(cleaned_slots(v).keys) <= cached_count(v.keys),
        forall|i: int|
            0 <= i < v.keys.len() ==> #[trigger] cleaned_slots(v).keys[i] == v.keys[i]
                || cleaned_slots(v).keys[i] is None,
        forall|i: int|
            0 <= i < v.usage.len() ==> #[trigger] cleaned_slots(v).usage[i] <= v.usage[i],
{
    lemma_cached_count_mono(cleaned_slots(v).keys, v.keys);
}

} // verus!
