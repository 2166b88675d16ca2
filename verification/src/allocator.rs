//! Where the allocator that serves memory from the Erlang VM sends each request.
//!
//! Requests whose alignment the VM's allocator guarantees go to it; the others go to
//! the system allocator; zero-sized requests get a dangling, well-aligned address.
use vstd::prelude::*;

verus! {

/// Who serves an allocation request.
pub enum AllocRoute {
    /// Nothing is allocated; the request's alignment serves as the address.
    Dangling,
    /// `enif_alloc`
    Enif,
    /// The system allocator.
    System,
}

/// Who serves a deallocation request.
pub enum DeallocRoute {
    /// Nothing was allocated; nothing is freed.
    Nothing,
    /// `enif_free`
    Enif,
    /// The system allocator.
    System,
}

/// Who serves a reallocation request.
pub enum ReallocRoute {
    /// The old block was zero-sized: allocate the new size afresh.
    AllocNew,
    /// The new size is zero: free the old block and answer with a dangling address.
    FreeAndDangle,
    /// `enif_realloc`
    Enif,
    /// The system allocator.
    System,
}

/// The route of an allocation of `size` bytes aligned to `align`, where the VM's
/// allocator guarantees alignments up to `max_align`.
pub open spec fn alloc_route_of(size: usize, align: usize, max_align: usize) -> AllocRoute {
    if size == 0 {
        AllocRoute::Dangling
    } else if align <= max_align {
        AllocRoute::Enif
    } else {
        AllocRoute::System
    }
}

/// The allocator that serves memory from the Erlang VM, by where it sends each request.
/// `max_align` is the largest alignment that the VM's allocator guarantees.
pub struct EnifAllocator {
    pub max_align: usize,
}

impl EnifAllocator {
    /// Where an allocation is served.
    pub fn alloc_route(&self, size: usize, align: usize) -> (r: AllocRoute)
        ensures
            r == alloc_route_of(size, align, self.max_align),
    {
        if size == 0 {
            AllocRoute::Dangling
        } else if align <= self.max_align {
            AllocRoute::Enif
        } else {
            AllocRoute::System
        }
    }

    /// Where a zeroed allocation is served: where an allocation of the same layout is.
    pub fn alloc_zeroed_route(&self, size: usize, align: usize) -> (r: AllocRoute)
        ensures
            r == alloc_route_of(size, align, self.max_align),
    {
        self.alloc_route(size, align)
    }

    /// Where a deallocation is served: by whoever served the allocation.
    pub fn dealloc_route(&self, size: usize, align: usize) -> (r: DeallocRoute)
        ensures
            r == match alloc_route_of(size, align, self.max_align) {
                AllocRoute::Dangling => DeallocRoute::Nothing,
                AllocRoute::Enif => DeallocRoute::Enif,
                AllocRoute::System => DeallocRoute::System,
            },
    {
        if size == 0 {
            DeallocRoute::Nothing
        } else if align <= self.max_align {
            DeallocRoute::Enif
        } else {
            DeallocRoute::System
        }
    }

    /// Where a reallocation from `size` to `new_size` bytes is served.
    pub fn realloc_route(&self, size: usize, align: usize, new_size: usize) -> (r: ReallocRoute)
        ensures
            size == 0 ==> r == ReallocRoute::AllocNew,
            size != 0 && new_size == 0 ==> r == ReallocRoute::FreeAndDangle,
            size != 0 && new_size != 0 ==> r == match alloc_route_of(size, align, self.max_align) {
                AllocRoute::Enif => ReallocRoute::Enif,
                _ => ReallocRoute::System,
            },
    {
        if size == 0 {
            ReallocRoute::AllocNew
        } else if new_size == 0 {
            ReallocRoute::FreeAndDangle
        } else if align <= self.max_align {
            ReallocRoute::Enif
        } else {
            ReallocRoute::System
        }
    }
}

/// A block resized to a non-zero size stays with whoever allocated it, so that freeing it
/// under its new size goes to the same allocator.
pub proof fn lemma_resized_block_keeps_allocator(a: EnifAllocator, size: usize, align: usize, new_size: usize)
    requires
        size != 0,
        new_size != 0,
    ensures
        (alloc_route_of(size, align, a.max_align) is Enif) <==> (alloc_route_of(new_size, align, a.max_align) is Enif),
{
}

} // verus!
