//! The bookkeeping of buffers on the graphics card.
//!
//! A buffer on the card has a capacity that only grows. The types here keep
//! count of it and decide when the buffer has to be made anew; making it is
//! left to whoever talks to the card.
use vstd::prelude::*;

verus! {

/// The larger of two capacities.
pub open spec fn larger(a: usize, b: usize) -> usize {
    if a < b {
        b
    } else {
        a
    }
}

/// The capacity of a buffer after counts of items were submitted to it one
/// after another, the first `n` of `counts`.
pub open spec fn capacity_after(initial: usize, counts: Seq<usize>, n: nat) -> usize
    decreases n,
{
    if n == 0 || n > counts.len() {
        initial
    } else {
        larger(capacity_after(initial, counts, (n - 1) as nat), counts[n - 1])
    }
}

/// A buffer of items whose capacity is counted in items.
#[derive(Debug)]
pub struct Buffer {
    target: u32,
    usage: u32,
    size: usize,
}

impl Buffer {
    /// The number of items that the buffer holds at most.
    pub closed spec fn capacity(&self) -> usize {
        self.size
    }

    /// The binding point of the buffer.
    pub closed spec fn binding(&self) -> u32 {
        self.target
    }

    /// How the buffer is used.
    pub closed spec fn purpose(&self) -> u32 {
        self.usage
    }

    /// A buffer that holds `size` items. It has to be allocated before it is
    /// used, unless `size` is zero.
    pub fn new(target: u32, usage: u32, size: usize) -> (buffer: Buffer)
        ensures
            buffer.capacity() == size,
            buffer.binding() == target,
            buffer.purpose() == usage,
    {
        let mut buffer = Buffer { target, usage, size: 0 };
        let _ = buffer.bind(size);
        buffer
    }

    /// Makes room for `size` items. Returns the number of items to allocate
    /// where the buffer has to grow, and `None` where it is large enough.
    ///
    /// The capacity never shrinks.
    pub fn bind(&mut self, size: usize) -> (grow: Option<usize>)
        ensures
            final(self).capacity() == larger(old(self).capacity(), size),
            final(self).binding() == old(self).binding(),
            final(self).purpose() == old(self).purpose(),
            grow == if old(self).capacity() < size {
                Some(size)
            } else {
                None
            },
    {
        if self.size < size {
            self.size = size;
            Some(size)
        } else {
            None
        }
    }

    /// The number of items that the buffer holds at most.
    pub fn size(&self) -> (size: usize)
        ensures
            size == self.capacity(),
    {
        self.size
    }

    /// The binding point of the buffer.
    pub fn target(&self) -> (target: u32)
        ensures
            target == self.binding(),
    {
        self.target
    }

    /// How the buffer is used.
    pub fn usage(&self) -> (usage: u32)
        ensures
            usage == self.purpose(),
    {
        self.usage
    }
}

/// What a write has put into a [`Static`] buffer: `len` bytes from the byte
/// `offset` on.
#[derive(Clone, Copy, Debug, PartialEq, Eq, Structural)]
pub struct Region {
    pub offset: u64,
    pub len: u64,
}

/// A buffer of items of one size, whose capacity is counted in bytes, and
/// which remembers where each write of a frame began.
#[derive(Debug)]
pub struct Static {
    stride: u64,
    size: u64,
    offsets: Vec<u64>,
}

/// The mathematical state of a [`Static`] buffer.
pub struct StaticView {
    /// The number of bytes of one item.
    pub stride: u64,
    /// The capacity in bytes.
    pub size: u64,
    /// Where each write since the last clearing began.
    pub offsets: Seq<u64>,
}

/// The number of bytes that `count` items of `stride` bytes take, as far as
/// a `u64` counts.
pub open spec fn byte_size(stride: u64, count: usize) -> u64 {
    if stride as int * count as int > u64::MAX {
        u64::MAX
    } else {
        (stride as int * count as int) as u64
    }
}

impl StaticView {
    /// The state after room was made for `count` items: a buffer that is too
    /// small is made anew with exactly that room, and forgets its writes.
    pub open spec fn resized(self, count: usize) -> StaticView {
        if self.size < byte_size(self.stride, count) {
            StaticView { size: byte_size(self.stride, count), offsets: Seq::empty(), ..self }
        } else {
            self
        }
    }

    /// The state after the first `n` of `counts` asked for room in turn.
    pub open spec fn resized_all(self, counts: Seq<usize>, n: nat) -> StaticView
        decreases n,
    {
        if n == 0 || n > counts.len() {
            self
        } else {
            self.resized_all(counts, (n - 1) as nat).resized(counts[n - 1])
        }
    }

    /// The state after `count` items were written from the byte `offset` on.
    pub open spec fn written(self, offset: u64) -> StaticView {
        StaticView { offsets: self.offsets.push(offset), ..self }
    }
}

impl View for Static {
    type V = StaticView;

    closed spec fn view(&self) -> StaticView {
        StaticView { stride: self.stride, size: self.size, offsets: self.offsets@ }
    }
}

fn bytes_of(stride: u64, count: usize) -> (bytes: u64)
    ensures
        bytes == byte_size(stride, count),
{
    assert(stride as int * count as int <= 0xffff_ffff_ffff_ffff * 0xffff_ffff_ffff_ffff) by (nonlinear_arith)
        requires
            0 <= stride as int <= 0xffff_ffff_ffff_ffff,
            0 <= count as int <= 0xffff_ffff_ffff_ffff,
    ;
    let wide: u128 = stride as u128 * count as u128;
    if wide > u64::MAX as u128 {
        u64::MAX
    } else {
        wide as u64
    }
}

impl Static {
    /// A buffer with room for `count` items of `stride` bytes.
    pub fn new(stride: u64, count: usize) -> (buffer: Static)
        ensures
            buffer@ == (StaticView {
                stride,
                size: byte_size(stride, count),
                offsets: Seq::empty(),
            }),
    {
        Static { stride, size: bytes_of(stride, count), offsets: Vec::new() }
    }

    /// Makes room for `new_count` items. Returns whether the buffer was too
    /// small and has to be made anew: whatever was bound to the old buffer
    /// has then to be bound again before the next draw.
    pub fn resize(&mut self, new_count: usize) -> (resized: bool)
        ensures
            final(self)@ == old(self)@.resized(new_count),
            resized == (old(self)@.size < byte_size(old(self)@.stride, new_count)),
    {
        let new_size = bytes_of(self.stride, new_count);
        if self.size < new_size {
            self.offsets.clear();
            self.size = new_size;
            true
        } else {
            false
        }
    }

    /// Takes in a write of `count` items from the byte `offset` on, and
    /// returns the region of bytes that it fills.
    pub fn write(&mut self, offset: u64, count: usize) -> (region: Region)
        ensures
            final(self)@ == old(self)@.written(offset),
            region == (Region { offset, len: byte_size(old(self)@.stride, count) }),
    {
        self.offsets.push(offset);
        Region { offset, len: bytes_of(self.stride, count) }
    }

    /// Where the write `index` of this frame began.
    pub fn offset_at(&self, index: usize) -> (offset: Option<u64>)
        ensures
            offset == if index < self@.offsets.len() {
                Some(self@.offsets[index as int])
            } else {
                None
            },
    {
        if index < self.offsets.len() {
            Some(self.offsets[index])
        } else {
            None
        }
    }

    /// Forgets the writes of the frame. The capacity stays.
    pub fn clear(&mut self)
        ensures
            final(self)@ == (StaticView { offsets: Seq::empty(), ..old(self)@ }),
    {
        self.offsets.clear();
    }

    /// The capacity in bytes.
    pub fn size(&self) -> (size: u64)
        ensures
            size == self@.size,
    {
        self.size
    }
}

/// The capacity of a buffer never shrinks, and it is never below a count
/// that was submitted: after any counts, it is at least the initial
/// capacity and at least each of the counts.
pub proof fn lemma_capacity_grows(initial: usize, counts: Seq<usize>, n: nat, k: int)
    requires
        0 <= k < n <= counts.len(),
    ensures
        capacity_after(initial, counts, n) >= initial,
        capacity_after(initial, counts, n) >= counts[k],
        capacity_after(initial, counts, n) >= capacity_after(initial, counts, k as nat),
    decreases n,
{
    if k < n - 1 {
        lemma_capacity_grows(initial, counts, (n - 1) as nat, k);
    } else {
        lemma_capacity_never_shrinks(initial, counts, (n - 1) as nat);
    }
}

/// After any counts the capacity is at least the initial capacity.
pub proof fn lemma_capacity_never_shrinks(initial: usize, counts: Seq<usize>, n: nat)
    requires
        n <= counts.len(),
    ensures
        capacity_after(initial, counts, n) >= initial,
    decreases n,
{
    if n > 0 {
        lemma_capacity_never_shrinks(initial, counts, (n - 1) as nat);
    }
}

/// The room of a [`Static`] buffer never shrinks either: whatever counts ask
/// for room, the size afterwards is at least the size before and at least
/// the bytes of the count that asked last.
pub proof fn lemma_static_grows(buffer: StaticView, counts: Seq<usize>, n: nat)
    requires
        n <= counts.len(),
    ensures
        buffer.resized_all(counts, n).size >= buffer.size,
        buffer.resized_all(counts, n).stride == buffer.stride,
        n > 0 ==> buffer.resized_all(counts, n).size >= byte_size(buffer.stride, counts[n - 1]),
    decreases n,
{
    if n > 0 {
        lemma_static_grows(buffer, counts, (n - 1) as nat);
    }
}

} // verus!
