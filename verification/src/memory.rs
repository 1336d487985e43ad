//! Memory management: a pooled byte-buffer allocator with CPU/GPU
//! exclusive-access locks, and a watermark allocator for device memory.
//!
//! Pool accounting invariant: `allocated` always equals the sum of the
//! granted sizes of the buffers currently handed out (the live buffers), and
//! never exceeds the pool's configured total. Every operation states this in
//! its contract through [`MemoryPool::wf`].

use vstd::prelude::*;

verus! {

/// Errors of the memory subsystem: capacity errors are reported
/// synchronously, lock contention is reported and never blocked on.
#[derive(Clone, Copy, Debug, PartialEq, Eq, Structural)]
pub enum MemoryError {
    /// The pool (or device) cannot grant the requested bytes.
    PoolExhausted,
    /// A CPU write was attempted while the buffer was GPU-locked.
    BufferGpuLocked,
    /// The written data does not fit the buffer's capacity.
    DataTooLarge,
    /// A second GPU lock was attempted while one is held.
    AlreadyGpuLocked,
    /// A second pin was attempted while one is held.
    AlreadyPinned,
}

/// Ghost image of a [`MemoryBuffer`].
pub struct BufferView {
    /// The backing bytes; their count is the buffer's capacity.
    pub data: Seq<u8>,
    /// The current size (at most the capacity).
    pub size: nat,
    /// The size granted when the pool handed the buffer out; this is what
    /// the pool's account carries for the buffer, untouched by later
    /// `resize`/`write` calls.
    pub alloc_size: nat,
    /// Exclusive GPU-access lock.
    pub gpu_locked: bool,
    /// Pinned for DMA.
    pub pinned: bool,
}

/// A reusable byte buffer with `size <= capacity`, an exclusive GPU lock and
/// a pin flag.
pub struct MemoryBuffer {
    data: Vec<u8>,
    size: usize,
    alloc_size: usize,
    gpu_locked: bool,
    pinned: bool,
}

impl View for MemoryBuffer {
    type V = BufferView;

    closed spec fn view(&self) -> BufferView {
        BufferView {
            data: self.data@,
            size: self.size as nat,
            alloc_size: self.alloc_size as nat,
            gpu_locked: self.gpu_locked,
            pinned: self.pinned,
        }
    }
}

impl MemoryBuffer {
    /// Well-formed: the current size never exceeds the capacity.
    pub open spec fn wf(&self) -> bool {
        self@.size <= self@.data.len()
    }

    /// A fresh zeroed buffer of the given capacity, unlocked and unpinned,
    /// with `size` equal to the capacity.
    pub fn new(capacity: usize) -> (r: MemoryBuffer)
        ensures
            r.wf(),
            r@.data == Seq::new(capacity as nat, |i: int| 0u8),
            r@.size == capacity as nat,
            r@.alloc_size == capacity as nat,
            !r@.gpu_locked,
            !r@.pinned,
    {
        let mut data: Vec<u8> = Vec::new();
        while data.len() < capacity
            invariant
                data@.len() <= capacity as nat,
                forall|i: int| 0 <= i < data@.len() ==> data@[i] == 0u8,
            decreases capacity - data.len(),
        {
            data.push(0u8);
        }
        proof {
            assert(data@ =~= Seq::new(capacity as nat, |i: int| 0u8));
        }
        MemoryBuffer { data, size: capacity, alloc_size: capacity, gpu_locked: false, pinned: false }
    }

    /// The buffer's capacity in bytes.
    pub fn capacity(&self) -> (r: usize)
        ensures
            r as nat == self@.data.len(),
    {
        self.data.len()
    }

    /// The buffer's current size in bytes.
    pub fn size(&self) -> (r: usize)
        ensures
            r as nat == self@.size,
    {
        self.size
    }

    /// Sets the current size; the new size must fit the capacity.
    pub fn resize(&mut self, new_size: usize)
        requires
            new_size as nat <= old(self)@.data.len(),
        ensures
            final(self).wf(),
            final(self)@ == (BufferView { size: new_size as nat, ..old(self)@ }),
    {
        self.size = new_size;
    }

    /// Prepares the buffer for reuse: clears the GPU lock and empties it.
    /// The backing bytes are kept (callers initialize `0..size` before any
    /// read).
    pub fn reset(&mut self)
        ensures
            final(self).wf(),
            final(self)@ == (BufferView { size: 0, gpu_locked: false, ..old(self)@ }),
    {
        self.gpu_locked = false;
        self.size = 0;
    }

    /// Copies `data` into the buffer's prefix and sets the size accordingly.
    ///
    /// Lock exclusion: a write never proceeds while the GPU lock is held, so
    /// for every buffer at most one of the GPU lock and an in-progress CPU
    /// write is in effect.
    pub fn write(&mut self, data: &Vec<u8>) -> (r: Result<(), MemoryError>)
        ensures
            old(self)@.gpu_locked ==> r == Err::<(), MemoryError>(MemoryError::BufferGpuLocked)
                && final(self)@ == old(self)@,
            !old(self)@.gpu_locked && data@.len() > old(self)@.data.len()
                ==> r == Err::<(), MemoryError>(MemoryError::DataTooLarge)
                    && final(self)@ == old(self)@,
            !old(self)@.gpu_locked && data@.len() <= old(self)@.data.len() ==> {
                &&& r == Ok::<(), MemoryError>(())
                &&& final(self)@ == (BufferView {
                    data: data@ + old(self)@.data.skip(data@.len() as int),
                    size: data@.len(),
                    ..old(self)@
                })
            },
            old(self).wf() ==> final(self).wf(),
            !old(self)@.gpu_locked && data@.len() <= old(self)@.data.len() ==> final(self).wf(),
            final(self)@.data.len() == old(self)@.data.len(),
    {
        if self.gpu_locked {
            return Err(MemoryError::BufferGpuLocked);
        }
        if data.len() > self.data.len() {
            return Err(MemoryError::DataTooLarge);
        }
        let ghost orig = self.data@;
        let mut i: usize = 0;
        while i < data.len()
            invariant
                i <= data@.len(),
                data@.len() <= self.data@.len(),
                self.data@.len() == orig.len(),
                self@.gpu_locked == old(self)@.gpu_locked,
                self@.pinned == old(self)@.pinned,
                self@.alloc_size == old(self)@.alloc_size,
                forall|j: int| 0 <= j < i ==> self.data@[j] == data@[j],
                forall|j: int| i <= j < orig.len() ==> self.data@[j] == orig[j],
            decreases data.len() - i,
        {
            let b = data[i];
            self.data.set(i, b);
            i += 1;
        }
        self.size = data.len();
        proof {
            assert(self.data@ =~= data@ + orig.skip(data@.len() as int));
        }
        Ok(())
    }

    /// Snapshot of the bytes `0..size`.
    pub fn read(&self) -> (r: Vec<u8>)
        requires
            self.wf(),
        ensures
            r@ == self@.data.take(self@.size as int),
    {
        let mut out: Vec<u8> = Vec::new();
        let mut i: usize = 0;
        while i < self.size
            invariant
                self.wf(),
                i <= self@.size,
                out@ =~= self@.data.take(i as int),
            decreases self.size - i,
        {
            let b = self.data[i];
            out.push(b);
            i += 1;
        }
        proof {
            assert(out@ =~= self@.data.take(self@.size as int));
        }
        out
    }

    /// Takes the exclusive GPU lock; fails (and changes nothing) when the
    /// lock is already held.
    pub fn lock_for_gpu(&mut self) -> (r: Result<(), MemoryError>)
        ensures
            old(self)@.gpu_locked ==> r == Err::<(), MemoryError>(MemoryError::AlreadyGpuLocked)
                && final(self)@ == old(self)@,
            !old(self)@.gpu_locked ==> r == Ok::<(), MemoryError>(())
                && final(self)@ == (BufferView { gpu_locked: true, ..old(self)@ }),
    {
        if self.gpu_locked {
            return Err(MemoryError::AlreadyGpuLocked);
        }
        self.gpu_locked = true;
        Ok(())
    }

    /// Releases the GPU lock.
    pub fn unlock_from_gpu(&mut self)
        ensures
            final(self)@ == (BufferView { gpu_locked: false, ..old(self)@ }),
    {
        self.gpu_locked = false;
    }

    /// Pins the buffer for DMA; fails (and changes nothing) when already
    /// pinned.
    pub fn pin(&mut self) -> (r: Result<(), MemoryError>)
        ensures
            old(self)@.pinned ==> r == Err::<(), MemoryError>(MemoryError::AlreadyPinned)
                && final(self)@ == old(self)@,
            !old(self)@.pinned ==> r == Ok::<(), MemoryError>(())
                && final(self)@ == (BufferView { pinned: true, ..old(self)@ }),
    {
        if self.pinned {
            return Err(MemoryError::AlreadyPinned);
        }
        self.pinned = true;
        Ok(())
    }

    /// Unpins the buffer.
    pub fn unpin(&mut self)
        ensures
            final(self)@ == (BufferView { pinned: false, ..old(self)@ }),
    {
        self.pinned = false;
    }
}

/// The sum of a sequence of granted sizes.
pub open spec fn sum_sizes(s: Seq<nat>) -> int
    decreases s.len(),
{
    if s.len() == 0 {
        0
    } else {
        s[0] + sum_sizes(s.skip(1))
    }
}

pub proof fn lemma_sum_sizes_push(s: Seq<nat>, v: nat)
    ensures
        sum_sizes(s.push(v)) == sum_sizes(s) + v,
    decreases s.len(),
{
    if s.len() == 0 {
        assert(s.push(v)[0] == v);
        assert(s.push(v).skip(1) =~= Seq::<nat>::empty());
        assert(sum_sizes(Seq::<nat>::empty()) == 0);
    } else {
        assert(s.push(v)[0] == s[0]);
        assert(s.push(v).skip(1) =~= s.skip(1).push(v));
        lemma_sum_sizes_push(s.skip(1), v);
        assert(sum_sizes(s.push(v)) == s[0] + sum_sizes(s.skip(1).push(v)));
    }
}

pub proof fn lemma_sum_sizes_remove(s: Seq<nat>, i: int)
    requires
        0 <= i < s.len(),
    ensures
        sum_sizes(s.remove(i)) == sum_sizes(s) - s[i],
    decreases s.len(),
{
    if i == 0 {
        assert(s.remove(0) =~= s.skip(1));
    } else {
        assert(s.remove(i).skip(1) =~= s.skip(1).remove(i - 1));
        lemma_sum_sizes_remove(s.skip(1), i - 1);
    }
}

pub proof fn lemma_sum_sizes_nonneg(s: Seq<nat>)
    ensures
        sum_sizes(s) >= 0,
    decreases s.len(),
{
    if s.len() > 0 {
        lemma_sum_sizes_nonneg(s.skip(1));
    }
}

/// Ghost image of a [`MemoryPool`].
pub struct PoolView {
    /// Configured pool capacity in bytes.
    pub total: nat,
    /// Bytes currently granted to live buffers.
    pub allocated: nat,
    /// Capacities of the buffers waiting on the free list.
    pub free_caps: Seq<nat>,
    /// Granted sizes of the live (handed-out) buffers.
    pub live: Seq<nat>,
}

/// A buffer pool that amortizes allocation: freed buffers are kept and
/// reused for later requests that fit their capacity.
pub struct MemoryPool {
    total_size: usize,
    allocated: usize,
    free_buffers: Vec<MemoryBuffer>,
    live_sizes: Ghost<Seq<nat>>,
}

impl View for MemoryPool {
    type V = PoolView;

    closed spec fn view(&self) -> PoolView {
        PoolView {
            total: self.total_size as nat,
            allocated: self.allocated as nat,
            free_caps: Seq::new(self.free_buffers@.len(), |i: int| self.free_buffers@[i]@.data.len()),
            live: self.live_sizes@,
        }
    }
}

impl MemoryPool {
    /// Pool accounting: the allocation counter equals the sum of the granted
    /// sizes of the live buffers and never exceeds the configured total.
    /// This holds after any interleaving of `allocate`, `free` and `clear`.
    pub open spec fn wf(&self) -> bool {
        &&& self@.allocated as int == sum_sizes(self@.live)
        &&& self@.allocated <= self@.total
    }

    /// An empty pool of the given capacity.
    pub fn new(total_size: usize) -> (r: MemoryPool)
        ensures
            r.wf(),
            r@.total == total_size as nat,
            r@.allocated == 0,
            r@.free_caps.len() == 0,
            r@.live.len() == 0,
    {
        MemoryPool {
            total_size,
            allocated: 0,
            free_buffers: Vec::new(),
            live_sizes: Ghost(Seq::empty()),
        }
    }

    /// Grants a buffer of exactly `size` bytes: the first free buffer whose
    /// capacity fits is reused (its prior bytes are kept; callers initialize
    /// `0..size` before any read), otherwise a fresh zeroed buffer is made.
    /// Fails with `PoolExhausted`, changing nothing, exactly when the grant
    /// would push the outstanding total over the pool's capacity.
    pub fn allocate(&mut self, size: usize) -> (r: Result<MemoryBuffer, MemoryError>)
        requires
            old(self).wf(),
        ensures
            final(self).wf(),
            final(self)@.total == old(self)@.total,
            old(self)@.allocated + size > old(self)@.total ==> {
                &&& r == Err::<MemoryBuffer, MemoryError>(MemoryError::PoolExhausted)
                &&& final(self)@ == old(self)@
            },
            old(self)@.allocated + size <= old(self)@.total ==> {
                &&& r is Ok
                &&& final(self)@.allocated == old(self)@.allocated + size
                &&& final(self)@.live == old(self)@.live.push(size as nat)
            },
            r matches Ok(buf) ==> {
                &&& buf.wf()
                &&& buf@.size == size as nat
                &&& buf@.alloc_size == size as nat
                &&& buf@.data.len() >= size as nat
                &&& !buf@.gpu_locked
            },
    {
        if size > self.total_size - self.allocated {
            return Err(MemoryError::PoolExhausted);
        }
        proof {
            lemma_sum_sizes_push(self.live_sizes@, size as nat);
        }
        // Reuse the first free buffer whose capacity fits.
        let mut i: usize = 0;
        while i < self.free_buffers.len()
            invariant
                i <= self.free_buffers@.len(),
                self == old(self),
                self.wf(),
                size + self.allocated <= self.total_size,
            decreases self.free_buffers@.len() - i,
        {
            if self.free_buffers[i].capacity() >= size {
                let mut buf = self.free_buffers.remove(i);
                buf.reset();
                buf.resize(size);
                buf.alloc_size = size;
                self.allocated = self.allocated + size;
                proof {
                    lemma_sum_sizes_push(self.live_sizes@, size as nat);
                    self.live_sizes@ = self.live_sizes@.push(size as nat);
                }
                return Ok(buf);
            }
            i += 1;
        }
        // No free buffer fits: hand out a fresh one.
        let buf = MemoryBuffer::new(size);
        self.allocated = self.allocated + size;
        proof {
            self.live_sizes@ = self.live_sizes@.push(size as nat);
        }
        Ok(buf)
    }

    /// Returns a buffer to the pool: its granted size leaves the account and
    /// the buffer joins the free list for reuse. The bytes are not zeroed.
    pub fn free(&mut self, buffer: MemoryBuffer)
        requires
            old(self).wf(),
            old(self)@.live.contains(buffer@.alloc_size),
        ensures
            final(self).wf(),
            final(self)@.total == old(self)@.total,
            final(self)@.allocated == old(self)@.allocated - buffer@.alloc_size,
            final(self)@.free_caps == old(self)@.free_caps.push(buffer@.data.len()),
            exists|i: int|
                0 <= i < old(self)@.live.len() && old(self)@.live[i] == buffer@.alloc_size
                    && final(self)@.live == old(self)@.live.remove(i),
    {
        let ghost i = choose|i: int|
            0 <= i < self.live_sizes@.len() && self.live_sizes@[i] == buffer@.alloc_size;
        proof {
            lemma_sum_sizes_remove(self.live_sizes@, i);
            lemma_sum_sizes_nonneg(self.live_sizes@.remove(i));
        }
        self.allocated = self.allocated - buffer.alloc_size;
        proof {
            self.live_sizes@ = self.live_sizes@.remove(i);
        }
        self.free_buffers.push(buffer);
        proof {
            assert(self@.free_caps =~= old(self)@.free_caps.push(buffer@.data.len()));
        }
    }

    /// Bytes currently granted to live buffers.
    pub fn used(&self) -> (r: usize)
        ensures
            r as nat == self@.allocated,
    {
        self.allocated
    }

    /// The pool's configured capacity.
    pub fn total(&self) -> (r: usize)
        ensures
            r as nat == self@.total,
    {
        self.total_size
    }

    /// Drains the free list, forgets every tracked buffer and resets the
    /// account to zero.
    pub fn clear(&mut self)
        ensures
            final(self).wf(),
            final(self)@.total == old(self)@.total,
            final(self)@.allocated == 0,
            final(self)@.free_caps.len() == 0,
            final(self)@.live.len() == 0,
    {
        self.free_buffers.clear();
        self.allocated = 0;
        proof {
            self.live_sizes@ = Seq::empty();
        }
    }
}

/// How device memory is carved up.
#[derive(Clone, Copy, Debug, PartialEq, Eq, Structural)]
pub enum GpuMemoryStrategy {
    /// Best fit allocation.
    BestFit,
    /// First fit allocation.
    FirstFit,
    /// Buddy allocator.
    Buddy,
}

/// Handle to a device-memory allocation.
#[derive(Clone, Copy, Debug, PartialEq, Eq, Structural)]
pub struct GpuMemoryHandle {
    pub offset: usize,
    pub size: usize,
}

/// A watermark allocator over a device's memory: offsets grow with each
/// grant and the running total never exceeds the device's capacity.
pub struct GpuMemoryAllocator {
    strategy: GpuMemoryStrategy,
    device_memory: usize,
    allocated: usize,
}

impl GpuMemoryAllocator {
    /// The running total never exceeds the device capacity.
    pub open spec fn wf(&self) -> bool {
        self.spec_allocated() <= self.spec_device_memory()
    }

    pub closed spec fn spec_allocated(&self) -> nat {
        self.allocated as nat
    }

    pub closed spec fn spec_device_memory(&self) -> nat {
        self.device_memory as nat
    }

    pub closed spec fn spec_strategy(&self) -> GpuMemoryStrategy {
        self.strategy
    }

    pub fn new(strategy: GpuMemoryStrategy, device_memory: usize) -> (r: GpuMemoryAllocator)
        ensures
            r.wf(),
            r.spec_allocated() == 0,
            r.spec_device_memory() == device_memory as nat,
            r.spec_strategy() == strategy,
    {
        GpuMemoryAllocator { strategy, device_memory, allocated: 0 }
    }

    /// Grants `size` device bytes at the current watermark; fails, changing
    /// nothing, exactly when the grant would exceed the device's capacity.
    pub fn allocate(&mut self, size: usize) -> (r: Result<GpuMemoryHandle, MemoryError>)
        requires
            old(self).wf(),
        ensures
            final(self).wf(),
            final(self).spec_device_memory() == old(self).spec_device_memory(),
            final(self).spec_strategy() == old(self).spec_strategy(),
            old(self).spec_allocated() + size > old(self).spec_device_memory() ==> {
                &&& r == Err::<GpuMemoryHandle, MemoryError>(MemoryError::PoolExhausted)
                &&& final(self).spec_allocated() == old(self).spec_allocated()
            },
            old(self).spec_allocated() + size <= old(self).spec_device_memory() ==> {
                &&& r == Ok::<GpuMemoryHandle, MemoryError>(GpuMemoryHandle {
                    offset: old(self).spec_allocated() as usize,
                    size,
                })
                &&& final(self).spec_allocated() == old(self).spec_allocated() + size
            },
    {
        if size > self.device_memory - self.allocated {
            return Err(MemoryError::PoolExhausted);
        }
        let offset = self.allocated;
        self.allocated = self.allocated + size;
        Ok(GpuMemoryHandle { offset, size })
    }

    /// Returns a grant's bytes to the account.
    pub fn free(&mut self, handle: GpuMemoryHandle)
        requires
            old(self).wf(),
            handle.size as nat <= old(self).spec_allocated(),
        ensures
            final(self).wf(),
            final(self).spec_device_memory() == old(self).spec_device_memory(),
            final(self).spec_strategy() == old(self).spec_strategy(),
            final(self).spec_allocated() == old(self).spec_allocated() - handle.size,
    {
        self.allocated = self.allocated - handle.size;
    }
}

} // verus!
