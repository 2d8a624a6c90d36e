//! The four capabilities of an allocator handle: building handles,
//! releasing memory, acquiring memory and resizing it.
//!
//! Addresses are plain non-zero integers. What a handle has handed out is
//! modelled by `blocks`: the start address of each live allocation and its
//! current contents.
use vstd::prelude::*;
use crate::layout::NonZeroLayout;

verus! {

/// The memory an allocator handle has handed out and not yet taken back.
pub trait Blocks: Sized {
    /// Live allocations: start address to current contents.
    spec fn blocks(&self) -> Map<usize, Seq<u8>>;

    /// The handle's own well-formedness.
    spec fn inv(&self) -> bool;
}

/// `n` zero bytes.
pub open spec fn zeros(n: int) -> Seq<u8> {
    Seq::new(n as nat, |i: int| 0u8)
}

/// `p` is a usable address for `layout`: non-null and aligned.
pub open spec fn fits(p: usize, layout: NonZeroLayout) -> bool {
    p != 0 && p as int % layout.spec_align() == 0
}

/// What acquiring memory does to the live blocks: on success one new block
/// of the requested size appears at a usable address and the others stay as
/// they were; on failure nothing changes.
pub open spec fn acquired<E>(
    before: Map<usize, Seq<u8>>,
    after: Map<usize, Seq<u8>>,
    layout: NonZeroLayout,
    r: Result<usize, E>,
) -> bool {
    match r {
        Ok(p) => {
            &&& fits(p, layout)
            &&& !before.contains_key(p)
            &&& after.contains_key(p)
            &&& after[p].len() == layout.spec_size()
            &&& after.remove(p) == before
        },
        Err(_) => after == before,
    }
}

/// What resizing the block at `p` does: on success it is gone and a block of
/// the new size stands at a usable address `q` (possibly `p` itself), holding
/// the first `min(old, new)` bytes it held, the others unchanged; on failure
/// nothing changes.
pub open spec fn resized<E>(
    before: Map<usize, Seq<u8>>,
    after: Map<usize, Seq<u8>>,
    p: usize,
    new_layout: NonZeroLayout,
    r: Result<usize, E>,
) -> bool {
    match r {
        Ok(q) => {
            let keep = if before[p].len() <= new_layout.spec_size() {
                before[p].len() as int
            } else {
                new_layout.spec_size()
            };
            &&& fits(q, new_layout)
            &&& !before.remove(p).contains_key(q)
            &&& after.contains_key(q)
            &&& after[q].len() == new_layout.spec_size()
            &&& forall|i: int| 0 <= i < keep ==> #[trigger] after[q][i] == before[p][i]
            &&& after.remove(q) == before.remove(p)
        },
        Err(_) => after == before,
    }
}

/// Builds handles bound to a region of memory.
pub trait BuildAllocRef: Sized {
    type Ref;

    /// What `build_alloc_ref` did, as the implementor describes it.
    spec fn build_spec(
        pre: Self,
        ptr: usize,
        layout: Option<NonZeroLayout>,
        post: Self,
        r: Self::Ref,
    ) -> bool;

    /// A handle bound to the region at `ptr`, made with `layout` if given.
    fn build_alloc_ref(&mut self, ptr: usize, layout: Option<NonZeroLayout>) -> (r: Self::Ref)
        requires
            ptr != 0,
            layout matches Some(l) ==> l.wf(),
        ensures
            Self::build_spec(*old(self), ptr, layout, *final(self), r),
    ;
}

/// Releases memory, and hands out a builder of further handles.
pub trait DeallocRef: Blocks {
    type BuildAlloc;

    /// What `get_build_alloc` did, as the implementor describes it.
    spec fn get_build_spec(pre: Self, post: Self, r: Self::BuildAlloc) -> bool;

    /// A builder of handles of the same family as this one.
    fn get_build_alloc(&mut self) -> (r: Self::BuildAlloc)
        requires
            old(self).inv(),
        ensures
            final(self).inv(),
            final(self).blocks() == old(self).blocks(),
            Self::get_build_spec(*old(self), *final(self), r),
    ;

    /// What `dealloc` did, as the implementor describes it.
    spec fn dealloc_spec(pre: Self, ptr: usize, layout: NonZeroLayout, post: Self) -> bool;

    /// Releases the block at `ptr`, which was acquired with `layout`.
    fn dealloc(&mut self, ptr: usize, layout: NonZeroLayout)
        requires
            old(self).inv(),
            layout.wf(),
            old(self).blocks().contains_key(ptr),
            old(self).blocks()[ptr].len() == layout.spec_size(),
        ensures
            final(self).inv(),
            final(self).blocks() == old(self).blocks().remove(ptr),
            Self::dealloc_spec(*old(self), ptr, layout, *final(self)),
    ;
}

/// Acquires fresh memory.
pub trait AllocRef: Blocks {
    type Error;

    /// What `allocate` did, as the implementor describes it.
    spec fn allocate_spec(pre: Self, layout: NonZeroLayout, post: Self, r: Result<usize, Self::Error>) -> bool;

    /// What `alloc_zeroed` did, as the implementor describes it.
    spec fn alloc_zeroed_spec(
        pre: Self,
        layout: NonZeroLayout,
        post: Self,
        r: Result<usize, Self::Error>,
    ) -> bool;

    /// A new block for `layout`, of unspecified contents.
    fn allocate(&mut self, layout: NonZeroLayout) -> (r: Result<usize, Self::Error>)
        requires
            old(self).inv(),
            layout.wf(),
        ensures
            final(self).inv(),
            acquired(old(self).blocks(), final(self).blocks(), layout, r),
            Self::allocate_spec(*old(self), layout, *final(self), r),
    ;

    /// A new block for `layout`, every byte of it zero.
    fn alloc_zeroed(&mut self, layout: NonZeroLayout) -> (r: Result<usize, Self::Error>)
        requires
            old(self).inv(),
            layout.wf(),
        ensures
            final(self).inv(),
            acquired(old(self).blocks(), final(self).blocks(), layout, r),
            r matches Ok(p) ==> final(self).blocks()[p] == zeros(layout.spec_size()),
            Self::alloc_zeroed_spec(*old(self), layout, *final(self), r),
    ;
}

/// Grows or shrinks a live block.
pub trait ReallocRef: AllocRef {
    /// What `realloc` did, as the implementor describes it.
    spec fn realloc_spec(
        pre: Self,
        ptr: usize,
        old_layout: NonZeroLayout,
        new_layout: NonZeroLayout,
        post: Self,
        r: Result<usize, Self::Error>,
    ) -> bool;

    /// Moves the block at `ptr`, acquired with `old_layout`, to a block for
    /// `new_layout`, keeping the bytes the two have in common.
    fn realloc(&mut self, ptr: usize, old_layout: NonZeroLayout, new_layout: NonZeroLayout) -> (r:
        Result<usize, Self::Error>)
        requires
            old(self).inv(),
            old_layout.wf(),
            new_layout.wf(),
            old(self).blocks().contains_key(ptr),
            old(self).blocks()[ptr].len() == old_layout.spec_size(),
        ensures
            final(self).inv(),
            resized(old(self).blocks(), final(self).blocks(), ptr, new_layout, r),
            Self::realloc_spec(*old(self), ptr, old_layout, new_layout, *final(self), r),
    ;
}

} // verus!
