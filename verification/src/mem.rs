//! The elastic buffer pool: a free list of cleared buffers that grows by a
//! whole batch when demand outruns it, and that keeps returned buffers only up
//! to its baseline.

use crate::util::step_down;
use std::collections::VecDeque;
use std::ops::Deref;
use std::ops::DerefMut;
use std::sync::atomic::AtomicUsize;
use std::sync::atomic::Ordering;
use std::sync::Arc;
use std::sync::Mutex;
use std::sync::MutexGuard;
use tokio_util::bytes::Buf;
use tokio_util::bytes::BytesMut;
use vstd::prelude::*;

verus! {

// ---------------------------------------------------------------------------
// Outside types and calls
// ---------------------------------------------------------------------------

/// `BytesMut`, the growable byte buffer of the `bytes` crate. Nothing of its
/// inside is visible here; `written` names what it holds.
#[verifier::external_type_specification]
#[verifier::external_body]
pub struct ExBytesMut(tokio_util::bytes::BytesMut);

/// `std::sync::Mutex`. What it guards can change between any two looks at
/// it, so nothing is said of that.
#[verifier::external_type_specification]
#[verifier::external_body]
#[verifier::reject_recursive_types(T)]
pub struct ExMutex<T: ?Sized>(std::sync::Mutex<T>);

/// `std::sync::MutexGuard`: the held lock, which is given up when the guard
/// leaves scope.
#[verifier::external_type_specification]
#[verifier::external_body]
#[verifier::reject_recursive_types(T)]
pub struct ExMutexGuard<'a, T: ?Sized + 'a>(std::sync::MutexGuard<'a, T>);

/// The bytes that a buffer holds, in the order they were written.
pub uninterp spec fn written(buf: BytesMut) -> Seq<u8>;

/// `BytesMut::with_capacity`: a buffer that holds no bytes. The call panics
/// when the capacity is more than `isize::MAX`, which the precondition leaves
/// out.
#[verifier::external_body]
fn fresh_buffer(buf_capacity: usize) -> (buf: BytesMut)
    requires
        buf_capacity <= isize::MAX,
    ensures
        written(buf) == Seq::<u8>::empty(),
{
    BytesMut::with_capacity(buf_capacity)
}

/// `BytesMut::clear`: the buffer holds no bytes afterwards.
#[verifier::external_body]
pub(crate) fn clear_buffer(buf: &mut BytesMut)
    ensures
        written(*final(buf)) == Seq::<u8>::empty(),
{
    buf.clear()
}

/// `Buf::advance` on `BytesMut`: the first `count` bytes leave the buffer. The
/// call panics when the buffer holds fewer, which the precondition leaves out.
#[verifier::external_body]
pub(crate) fn drop_front(buf: &mut BytesMut, count: usize)
    requires
        count <= written(*old(buf)).len(),
    ensures
        written(*final(buf)) == written(*old(buf)).skip(count as int),
{
    buf.advance(count)
}

/// `Mutex::new`: the free list, put behind a lock of its own.
#[verifier::external_body]
fn guarded(list: FreeList) -> (r: Mutex<FreeList>) {
    Mutex::new(list)
}

/// `Mutex::lock`, with a poisoned lock told as `None`. Which free list the
/// guard gives access to depends on what other holders of the lock did, so
/// nothing is said of it. The pool takes the lock for the length of one call
/// and never while it holds it already.
#[verifier::external_body]
fn lock<'a>(list: &'a Mutex<FreeList>) -> (r: Option<MutexGuard<'a, FreeList>>) {
    list.lock().ok()
}

/// `DerefMut::deref_mut` on a lock guard: the free list behind the lock.
#[verifier::external_body]
fn locked<'a, 'b>(guard: &'a mut MutexGuard<'b, FreeList>) -> (r: &'a mut FreeList) {
    &mut **guard
}

// ---------------------------------------------------------------------------
// The bookkeeping, as numbers
// ---------------------------------------------------------------------------

/// True when a borrow finds as many buffers checked out as there are free
/// ones, or more: the free list then grows by one batch before it serves.
pub open spec fn starved(live: nat, free: nat) -> bool {
    live >= free
}

/// The length of the free list when a borrow is about to take its buffer.
pub open spec fn free_before_take(capacity: nat, live: nat, free: nat) -> nat {
    if starved(live, free) {
        free + capacity
    } else {
        free
    }
}

/// The length of the free list after a borrow.
pub open spec fn free_after_borrow(capacity: nat, live: nat, free: nat) -> nat {
    if free_before_take(capacity, live, free) > 0 {
        (free_before_take(capacity, live, free) - 1) as nat
    } else {
        0
    }
}

/// True when a returned buffer is kept: the free list has not reached the
/// baseline yet.
pub open spec fn keeps_returned(capacity: nat, free: nat) -> bool {
    free < capacity
}

/// The length of the free list after a return.
pub open spec fn free_after_return(capacity: nat, free: nat) -> nat {
    if keeps_returned(capacity, free) {
        free + 1
    } else {
        free
    }
}

/// The length of the free list after `count` returns in a row.
pub open spec fn free_after_returns(capacity: nat, free: nat, count: nat) -> nat
    decreases count,
{
    if count == 0 {
        free
    } else {
        free_after_returns(capacity, free_after_return(capacity, free), (count - 1) as nat)
    }
}

// ---------------------------------------------------------------------------
// The free list
// ---------------------------------------------------------------------------

/// Why the pool could not serve.
#[derive(Clone, Copy, Debug, PartialEq, Eq, Structural)]
pub enum PoolError {
    /// A holder of the free list's lock panicked: the pool is broken for good.
    LockPoisoned,
    /// The free list is empty and the baseline is zero, so no batch helps.
    Exhausted,
}

impl PoolError {
    /// A short text for the error, one per variant.
    pub fn message(self) -> (r: &'static str)
        ensures
            r@ == match self {
                PoolError::LockPoisoned => "failed to get allocator lock"@,
                PoolError::Exhausted => "failed to allocate buffer"@,
            },
    {
        match self {
            PoolError::LockPoisoned => "failed to get allocator lock",
            PoolError::Exhausted => "failed to allocate buffer",
        }
    }
}

/// The buffers that are ready to be handed out, oldest first. Every one of
/// them is cleared.
pub struct FreeList {
    buffers: VecDeque<BytesMut>,
}

impl FreeList {
    #[verifier::type_invariant]
    spec fn all_cleared(self) -> bool {
        forall|i: int|
            0 <= i < self.buffers@.len() ==> written(#[trigger] self.buffers@[i])
                == Seq::<u8>::empty()
    }

    /// The number of buffers in the list.
    pub closed spec fn spec_len(self) -> nat {
        self.buffers@.len()
    }

    /// A list of `capacity` fresh buffers.
    pub fn new(capacity: usize, buf_capacity: usize) -> (r: Self)
        requires
            buf_capacity <= isize::MAX,
        ensures
            r.spec_len() == capacity,
    {
        let mut list = FreeList { buffers: VecDeque::new() };
        list.grow(capacity, buf_capacity);
        list
    }

    /// The number of buffers in the list.
    pub fn len(&self) -> (r: usize)
        ensures
            r == self.spec_len(),
    {
        self.buffers.len()
    }

    /// Appends `count` fresh buffers.
    fn grow(&mut self, count: usize, buf_capacity: usize)
        requires
            buf_capacity <= isize::MAX,
        ensures
            final(self).spec_len() == old(self).spec_len() + count,
    {
        proof {
            use_type_invariant(&*self);
        }
        let mut buffers: VecDeque<BytesMut> = VecDeque::new();
        core::mem::swap(&mut self.buffers, &mut buffers);
        let ghost before = buffers@.len();
        let mut added: usize = 0;
        while added < count
            invariant
                added <= count,
                buf_capacity <= isize::MAX,
                buffers@.len() == before + added,
                forall|i: int|
                    0 <= i < buffers@.len() ==> written(#[trigger] buffers@[i]) == Seq::<
                        u8,
                    >::empty(),
            decreases count - added,
        {
            buffers.push_back(fresh_buffer(buf_capacity));
            added = added + 1;
        }
        core::mem::swap(&mut self.buffers, &mut buffers);
    }

    /// Serves one borrow, given how many buffers are checked out right now.
    ///
    /// If that many or fewer are free the list first grows by `capacity`
    /// buffers. Then its oldest buffer leaves. Nothing leaves only where the
    /// list is empty even after growing, which takes a baseline of zero.
    pub fn checkout(&mut self, live: usize, capacity: usize, buf_capacity: usize) -> (r: Option<
        BytesMut,
    >)
        requires
            buf_capacity <= isize::MAX,
        ensures
            r is Some <==> free_before_take(capacity as nat, live as nat, old(self).spec_len()) > 0,
            r matches Some(buf) ==> written(buf) == Seq::<u8>::empty(),
            final(self).spec_len() == free_after_borrow(
                capacity as nat,
                live as nat,
                old(self).spec_len(),
            ),
    {
        if live >= self.len() {
            self.grow(capacity, buf_capacity);
        }
        proof {
            use_type_invariant(&*self);
        }
        let mut buffers: VecDeque<BytesMut> = VecDeque::new();
        core::mem::swap(&mut self.buffers, &mut buffers);
        let taken = buffers.pop_front();
        core::mem::swap(&mut self.buffers, &mut buffers);
        taken
    }

    /// Takes a buffer back.
    ///
    /// While the list is shorter than `capacity` the buffer is cleared and
    /// appended; otherwise it is dropped and the list stays as it is.
    pub fn give_back(&mut self, buffer: BytesMut, capacity: usize)
        ensures
            final(self).spec_len() == free_after_return(capacity as nat, old(self).spec_len()),
    {
        if self.len() < capacity {
            proof {
                use_type_invariant(&*self);
            }
            let mut buffer = buffer;
            clear_buffer(&mut buffer);
            let mut buffers: VecDeque<BytesMut> = VecDeque::new();
            core::mem::swap(&mut self.buffers, &mut buffers);
            buffers.push_back(buffer);
            core::mem::swap(&mut self.buffers, &mut buffers);
        }
    }
}

// ---------------------------------------------------------------------------
// The shared pool
// ---------------------------------------------------------------------------

/// The pool itself: the baseline, the size of a buffer, the count of buffers
/// checked out, and the free list behind its lock.
pub struct BufferAllocator {
    capacity: usize,
    buf_capacity: usize,
    allocated: AtomicUsize,
    buffers: Mutex<FreeList>,
}

impl BufferAllocator {
    #[verifier::type_invariant]
    spec fn buffers_can_be_made(self) -> bool {
        self.buf_capacity <= isize::MAX
    }

    /// The baseline: how many buffers the pool starts with, grows by, and
    /// keeps at most when buffers come back.
    pub closed spec fn spec_capacity(&self) -> usize {
        self.capacity
    }

    /// The byte capacity that every buffer of the pool is made with.
    pub closed spec fn spec_buf_capacity(self) -> usize {
        self.buf_capacity
    }

    /// A pool with `capacity` buffers of `buf_capacity` bytes ready, and none
    /// checked out.
    pub fn new(capacity: usize, buf_capacity: usize) -> (r: Self)
        requires
            buf_capacity <= isize::MAX,
        ensures
            r.spec_capacity() == capacity,
            r.spec_buf_capacity() == buf_capacity,
    {
        BufferAllocator {
            capacity,
            buf_capacity,
            allocated: AtomicUsize::new(0),
            buffers: guarded(FreeList::new(capacity, buf_capacity)),
        }
    }

    #[verifier::when_used_as_spec(spec_capacity)]
    pub fn capacity(&self) -> (r: usize)
        ensures
            r == self.spec_capacity(),
    {
        self.capacity
    }

    /// Borrows one buffer.
    ///
    /// Under the lock: reads the count of buffers checked out, lets the free
    /// list serve (`FreeList::checkout`), and counts the borrow. The buffer
    /// that comes out is cleared. With a baseline above zero the only failure
    /// is a poisoned lock.
    pub fn allocate(&self) -> (r: Result<BytesMut, PoolError>)
        ensures
            r matches Ok(buf) ==> written(buf) == Seq::<u8>::empty(),
            r == Err::<BytesMut, PoolError>(PoolError::Exhausted) ==> self.spec_capacity() == 0,
    {
        proof {
            use_type_invariant(self);
        }
        let mut guard = match lock(&self.buffers) {
            Some(guard) => guard,
            None => {
                return Err(PoolError::LockPoisoned);
            },
        };
        let live = self.allocated.load(Ordering::Relaxed);
        let free = locked(&mut guard);
        let taken = free.checkout(live, self.capacity, self.buf_capacity);
        self.allocated.fetch_add(1, Ordering::Relaxed);
        match taken {
            Some(buffer) => Ok(buffer),
            None => Err(PoolError::Exhausted),
        }
    }

    /// Takes a buffer back.
    ///
    /// Counts the return (the count never goes below zero), asks for the
    /// lock, and lets `settle` do the rest with what came of that. The lock
    /// alone decides whether the return succeeds.
    pub fn dealloc(&self, buffer: BytesMut) -> (r: Result<(), PoolError>)
        ensures
            r is Err ==> r == Err::<(), PoolError>(PoolError::LockPoisoned),
    {
        step_down(&self.allocated);
        let mut guard = lock(&self.buffers);
        let free = match &mut guard {
            Some(guard) => Some(locked(guard)),
            None => None,
        };
        Self::settle(free, buffer, self.capacity)
    }
}

/// A handle on a pool that can be cloned and shared between tasks.
pub struct SmartBufferAllocator(Arc<BufferAllocator>);

impl SmartBufferAllocator {
    pub closed spec fn spec_capacity(self) -> usize {
        self.0.spec_capacity()
    }

    /// A new pool behind a shared handle.
    pub fn new(capacity: usize, buf_capacity: usize) -> (r: Self)
        requires
            buf_capacity <= isize::MAX,
        ensures
            r.spec_capacity() == capacity,
    {
        SmartBufferAllocator(Arc::new(BufferAllocator::new(capacity, buf_capacity)))
    }

    /// Borrows one buffer and wraps it with a handle on the pool it goes back
    /// to. Fails as `BufferAllocator::allocate` does.
    pub fn allocate(&self) -> (r: Result<AllocatedBuffer, PoolError>)
        ensures
            r matches Ok(handle) ==> written(handle.spec_buffer()) == Seq::<u8>::empty(),
            r matches Err(e) ==> (e == PoolError::Exhausted ==> self.spec_capacity() == 0),
    {
        match self.0.allocate() {
            Ok(buffer) => Ok(AllocatedBuffer { inner: buffer, manager: Arc::clone(&self.0) }),
            Err(e) => Err(e),
        }
    }
}

impl Clone for SmartBufferAllocator {
    fn clone(&self) -> (r: Self)
        ensures
            r.spec_capacity() == self.spec_capacity(),
    {
        SmartBufferAllocator(Arc::clone(&self.0))
    }
}

/// A borrowed buffer, together with the pool it came from. Whoever holds the
/// handle holds the buffer alone; giving the handle up gives the buffer back.
pub struct AllocatedBuffer {
    inner: BytesMut,
    manager: Arc<BufferAllocator>,
}

impl AllocatedBuffer {
    /// The buffer that the handle holds.
    pub closed spec fn spec_buffer(self) -> BytesMut {
        self.inner
    }

    /// The buffer, to write, for callers that must not unwind.
    pub(crate) fn held_mut(&mut self) -> (r: &mut BytesMut)
        ensures
            *r == old(self).spec_buffer(),
            final(self).spec_buffer() == *final(r),
        no_unwind
    {
        &mut self.inner
    }

    /// Gives the buffer back to its pool and ends the handle.
    ///
    /// Fails as `BufferAllocator::dealloc` does: on a poisoned lock only. The
    /// buffer is dropped then.
    pub fn release(self) -> (r: Result<(), PoolError>)
        ensures
            r is Err ==> r == Err::<(), PoolError>(PoolError::LockPoisoned),
    {
        let AllocatedBuffer { inner, manager } = self;
        manager.dealloc(inner)
    }
}

impl Deref for AllocatedBuffer {
    type Target = BytesMut;

    /// The buffer, to read.
    fn deref(&self) -> (r: &BytesMut)
        ensures
            *r == self.spec_buffer(),
    {
        &self.inner
    }
}

impl DerefMut for AllocatedBuffer {
    /// The buffer, to write.
    fn deref_mut(&mut self) -> (r: &mut BytesMut)
        ensures
            *r == old(self).spec_buffer(),
            final(self).spec_buffer() == *final(r),
    {
        &mut self.inner
    }
}

impl BufferAllocator {
    /// What a return comes to once the lock was asked for.
    ///
    /// With the free list in hand the list keeps or drops the buffer
    /// (`FreeList::give_back`) and the return succeeds. Without it, because
    /// the lock is poisoned, the buffer is dropped and the return fails.
    pub fn settle(locked: Option<&mut FreeList>, buffer: BytesMut, capacity: usize) -> (r: Result<
        (),
        PoolError,
    >)
        ensures
            match locked {
                Some(list) => {
                    &&& r == Ok::<(), PoolError>(())
                    &&& final(list).spec_len() == free_after_return(
                        capacity as nat,
                        list.spec_len(),
                    )
                },
                None => r == Err::<(), PoolError>(PoolError::LockPoisoned),
            },
    {
        match locked {
            Some(list) => {
                list.give_back(buffer, capacity);
                Ok(())
            },
            None => Err(PoolError::LockPoisoned),
        }
    }
}

// ---------------------------------------------------------------------------
// What holds of the bookkeeping
// ---------------------------------------------------------------------------

/// A borrow that finds the pool starved adds a whole batch before it takes
/// one buffer; any other borrow just takes one.
pub proof fn lemma_borrow_grows_by_a_batch(capacity: nat, live: nat, free: nat)
    requires
        capacity > 0,
    ensures
        starved(live, free) ==> free_after_borrow(capacity, live, free) == free + capacity - 1,
        !starved(live, free) ==> free_after_borrow(capacity, live, free) == free - 1,
        free_before_take(capacity, live, free) > 0,
{
}

/// Returns never lift the free list above the baseline: a list at or above it
/// stays as it is, however many buffers come back; a list below it fills up to
/// the baseline and no further.
pub proof fn lemma_returns_settle_at_baseline(capacity: nat, free: nat, count: nat)
    ensures
        free >= capacity ==> free_after_returns(capacity, free, count) == free,
        free < capacity && free + count <= capacity ==> free_after_returns(capacity, free, count)
            == free + count,
        free < capacity && free + count >= capacity ==> free_after_returns(capacity, free, count)
            == capacity,
    decreases count,
{
    if count > 0 {
        lemma_returns_settle_at_baseline(
            capacity,
            free_after_return(capacity, free),
            (count - 1) as nat,
        );
    }
}

} // verus!
