//! Resources: Rust values owned by the VM and handed to Erlang as opaque handles.
use vstd::prelude::*;
use vstd::layout::{align_of, size_of};
use std::sync::Arc;
use std::sync::atomic::AtomicBool;

verus! {

broadcast use vstd::layout::align_nonzero;

/// The bytes to ask the VM for to hold a `T` at an aligned address: its size and
/// room to move the start up to the next multiple of its alignment.
pub fn get_alloc_size_struct<T>() -> (n: usize)
    requires
        size_of::<T>() + align_of::<T>() <= usize::MAX,
    ensures
        n == size_of::<T>() + align_of::<T>(),
{
    core::mem::size_of::<T>() + core::mem::align_of::<T>()
}

/// The first address at or after `addr` that is a multiple of `align`.
pub open spec fn align_up(addr: int, align: int) -> int {
    addr + (align - addr % align) % align
}

/// The address at which a `T` is placed in memory that the VM allocated at `addr`:
/// the first one at or after `addr` aligned for `T`.
pub fn align_alloced_mem_for_struct<T>(addr: usize) -> (r: usize)
    requires
        addr + align_of::<T>() <= usize::MAX,
    ensures
        r == align_up(addr as int, align_of::<T>() as int),
        addr <= r < addr + align_of::<T>(),
        (r as int) % (align_of::<T>() as int) == 0,
{
    let align = core::mem::align_of::<T>();
    let offset = (align - addr % align) % align;
    proof {
        let a = align as int;
        let p = addr as int;
        assert(0 <= p % a < a);
        assert((p + (a - p % a) % a) % a == 0) by (nonlinear_arith)
            requires
                a > 0,
                p >= 0,
        {
            vstd::arithmetic::div_mod::lemma_fundamental_div_mod(p, a);
            if p % a == 0 {
                assert((a - p % a) % a == 0) by {
                    vstd::arithmetic::div_mod::lemma_mod_self_0(a);
                }
            } else {
                assert((a - p % a) % a == a - p % a) by {
                    vstd::arithmetic::div_mod::lemma_small_mod((a - p % a) as nat, a as nat);
                }
                vstd::arithmetic::div_mod::lemma_mod_multiples_vanish(p / a + 1, 0, a);
                assert(p + (a - p % a) == (p / a + 1) * a);
            }
        }
    }
    addr + offset
}

/// A resource handle: the VM's reference to it and the value it holds.
pub struct ResourceArc<T> {
    raw: u64,
    inner: Arc<T>,
}

impl<T> ResourceArc<T> {
    /// The VM's handle of the resource.
    pub closed spec fn handle(self) -> u64 {
        self.raw
    }

    /// The value the resource holds.
    pub closed spec fn value(self) -> T {
        *self.inner
    }

    /// A resource holding `data`, under the handle the VM allocated for it.
    pub fn new(raw: u64, data: T) -> (r: ResourceArc<T>)
        ensures
            r.handle() == raw,
            r.value() == data,
    {
        ResourceArc { raw, inner: Arc::new(data) }
    }

    /// The VM's handle of the resource.
    pub fn as_c_arg(&self) -> (h: u64)
        ensures
            h == self.handle(),
    {
        self.raw
    }

    /// The value the resource holds.
    pub fn inner(&self) -> (v: &T)
        ensures
            *v == self.value(),
    {
        &*self.inner
    }

    /// Another reference to the same resource.
    pub fn duplicate(&self) -> (r: ResourceArc<T>)
        ensures
            r.handle() == self.handle(),
            r.value() == self.value(),
    {
        ResourceArc { raw: self.raw, inner: Arc::clone(&self.inner) }
    }
}

/// The state behind a cancellation token; monitoring the owning process sets it when
/// that process goes down.
pub struct CancellationResource {
    cancelled: AtomicBool,
}

impl CancellationResource {
    /// A resource not yet cancelled.
    pub fn new() -> CancellationResource {
        CancellationResource { cancelled: AtomicBool::new(false) }
    }

    /// Called when the monitored process goes down: cancels.
    pub fn down(&self) {
        self.cancelled.store(true, std::sync::atomic::Ordering::SeqCst);
    }

    /// Whether the resource has been cancelled. Another thread may cancel it at any time,
    /// so nothing is promised of the answer.
    pub fn is_cancelled(&self) -> bool {
        self.cancelled.load(std::sync::atomic::Ordering::Relaxed)
    }
}

/// A flag, shared between clones, that long-running work polls to stop early.
pub struct CancellationToken {
    resource: ResourceArc<CancellationResource>,
}

impl CancellationToken {
    /// The VM's handle of the token's resource.
    pub closed spec fn handle(self) -> u64 {
        self.resource.handle()
    }

    /// A token that is not cancelled, held by the resource the VM allocated as `raw`.
    pub fn new(raw: u64) -> (t: CancellationToken)
        ensures
            t.handle() == raw,
    {
        CancellationToken { resource: ResourceArc::new(raw, CancellationResource::new()) }
    }

    /// Whether the token, or a clone of it, has been cancelled. The answer depends on
    /// other threads, so nothing is promised of it.
    pub fn is_cancelled(&self) -> bool {
        self.resource.inner().is_cancelled()
    }

    /// Cancels the token and all its clones.
    pub fn cancel(&self) {
        self.resource.inner().down()
    }

    /// The resource behind the token.
    pub fn as_resource(&self) -> (r: &ResourceArc<CancellationResource>)
        ensures
            r.handle() == self.handle(),
    {
        &self.resource
    }

    /// Another handle on the same token.
    pub fn duplicate(&self) -> (t: CancellationToken)
        ensures
            t.handle() == self.handle(),
    {
        CancellationToken { resource: self.resource.duplicate() }
    }
}

} // verus!
