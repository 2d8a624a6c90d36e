//! An allocator that wraps another one and aborts on out-of-memory.
use vstd::prelude::*;
use core::convert::Infallible;
use crate::capability::{resized, AllocRef, Blocks, BuildAllocRef, DeallocRef, ReallocRef};
use crate::layout::NonZeroLayout;

verus! {

/// An allocator, which wraps another allocator and aborts on OOM.
///
/// Every call is forwarded to the inner allocator. A success is handed back
/// as it came; a failure ends the process through the standard library's
/// out-of-memory handler. The error type is `Infallible`, which has no
/// values: a caller never sees an error.
#[derive(Debug, Default, Copy, Clone)]
pub struct AbortAlloc<A>(pub A);

#[verifier::external_type_specification]
#[verifier::external_body]
pub struct ExLayout(std::alloc::Layout);

/// Relies on `std::alloc::Layout::from_size_align`, which accepts exactly the
/// sizes and alignments that make a well-formed `NonZeroLayout`, so the
/// conversion never fails here.
#[verifier::external_body]
fn to_std_layout(layout: NonZeroLayout) -> (r: std::alloc::Layout)
    requires
        layout.wf(),
{
    std::alloc::Layout::from_size_align(layout.size(), layout.align()).unwrap()
}

/// Relies on `std::alloc::handle_alloc_error`: it reports the failed request
/// for `layout` and never returns, so no value of the result type is made.
#[verifier::external_body]
fn handle_alloc_error(layout: std::alloc::Layout) -> (r: Infallible) {
    std::alloc::handle_alloc_error(layout)
}

impl<A: Blocks> Blocks for AbortAlloc<A> {
    open spec fn blocks(&self) -> Map<usize, Seq<u8>> {
        self.0.blocks()
    }

    open spec fn inv(&self) -> bool {
        self.0.inv()
    }
}

impl<A: BuildAllocRef> BuildAllocRef for AbortAlloc<A> {
    type Ref = AbortAlloc<A::Ref>;

    open spec fn build_spec(
        pre: Self,
        ptr: usize,
        layout: Option<NonZeroLayout>,
        post: Self,
        r: Self::Ref,
    ) -> bool {
        A::build_spec(pre.0, ptr, layout, post.0, r.0)
    }

    fn build_alloc_ref(&mut self, ptr: usize, layout: Option<NonZeroLayout>) -> (r: Self::Ref) {
        AbortAlloc(self.0.build_alloc_ref(ptr, layout))
    }
}

impl<A: DeallocRef> DeallocRef for AbortAlloc<A> {
    type BuildAlloc = AbortAlloc<A::BuildAlloc>;

    open spec fn get_build_spec(pre: Self, post: Self, r: Self::BuildAlloc) -> bool {
        A::get_build_spec(pre.0, post.0, r.0)
    }

    open spec fn dealloc_spec(pre: Self, ptr: usize, layout: NonZeroLayout, post: Self) -> bool {
        A::dealloc_spec(pre.0, ptr, layout, post.0)
    }

    fn get_build_alloc(&mut self) -> (r: Self::BuildAlloc) {
        AbortAlloc(self.0.get_build_alloc())
    }

    fn dealloc(&mut self, ptr: usize, layout: NonZeroLayout) {
        self.0.dealloc(ptr, layout)
    }
}

impl<A: AllocRef> AllocRef for AbortAlloc<A> {
    type Error = Infallible;

    open spec fn allocate_spec(
        pre: Self,
        layout: NonZeroLayout,
        post: Self,
        r: Result<usize, Infallible>,
    ) -> bool {
        match r {
            Ok(p) => A::allocate_spec(pre.0, layout, post.0, Ok(p)),
            Err(_) => exists|e: A::Error| A::allocate_spec(pre.0, layout, post.0, Err(e)),
        }
    }

    open spec fn alloc_zeroed_spec(
        pre: Self,
        layout: NonZeroLayout,
        post: Self,
        r: Result<usize, Infallible>,
    ) -> bool {
        match r {
            Ok(p) => A::alloc_zeroed_spec(pre.0, layout, post.0, Ok(p)),
            Err(_) => exists|e: A::Error| A::alloc_zeroed_spec(pre.0, layout, post.0, Err(e)),
        }
    }

    #[allow(unreachable_code)]
    fn allocate(&mut self, layout: NonZeroLayout) -> (r: Result<usize, Infallible>) {
        match self.0.allocate(layout) {
            Ok(p) => Ok(p),
            Err(e) => {
                assert(A::allocate_spec(old(self).0, layout, self.0, Err(e)));
                Err(handle_alloc_error(to_std_layout(layout)))
            },
        }
    }

    #[allow(unreachable_code)]
    fn alloc_zeroed(&mut self, layout: NonZeroLayout) -> (r: Result<usize, Infallible>) {
        match self.0.alloc_zeroed(layout) {
            Ok(p) => Ok(p),
            Err(e) => {
                assert(A::alloc_zeroed_spec(old(self).0, layout, self.0, Err(e)));
                Err(handle_alloc_error(to_std_layout(layout)))
            },
        }
    }
}

impl<A: ReallocRef> ReallocRef for AbortAlloc<A> {
    open spec fn realloc_spec(
        pre: Self,
        ptr: usize,
        old_layout: NonZeroLayout,
        new_layout: NonZeroLayout,
        post: Self,
        r: Result<usize, Infallible>,
    ) -> bool {
        match r {
            Ok(q) => A::realloc_spec(pre.0, ptr, old_layout, new_layout, post.0, Ok(q)),
            Err(_) => exists|e: A::Error|
                A::realloc_spec(pre.0, ptr, old_layout, new_layout, post.0, Err(e)),
        }
    }

    #[allow(unreachable_code)]
    fn realloc(&mut self, ptr: usize, old_layout: NonZeroLayout, new_layout: NonZeroLayout) -> (r:
        Result<usize, Infallible>) {
        match self.0.realloc(ptr, old_layout, new_layout) {
            Ok(q) => Ok(q),
            Err(e) => {
                assert(A::realloc_spec(old(self).0, ptr, old_layout, new_layout, self.0, Err(e)));
                Err(handle_alloc_error(to_std_layout(new_layout)))
            },
        }
    }
}

/// On success the adapter does exactly what the inner allocator does: a
/// result and a change of state are possible for `allocate`, `alloc_zeroed`
/// and `realloc` through the adapter if and only if they are possible for the
/// same call on the inner allocator. The memory seen through the adapter is
/// the inner allocator's.
pub proof fn lemma_abort_success_is_inner_success<A: ReallocRef>(
    pre: A,
    post: A,
    ptr: usize,
    old_layout: NonZeroLayout,
    layout: NonZeroLayout,
    p: usize,
)
    ensures
        AbortAlloc::<A>::allocate_spec(AbortAlloc(pre), layout, AbortAlloc(post), Ok(p))
            == A::allocate_spec(pre, layout, post, Ok(p)),
        AbortAlloc::<A>::alloc_zeroed_spec(AbortAlloc(pre), layout, AbortAlloc(post), Ok(p))
            == A::alloc_zeroed_spec(pre, layout, post, Ok(p)),
        AbortAlloc::<A>::realloc_spec(
            AbortAlloc(pre),
            ptr,
            old_layout,
            layout,
            AbortAlloc(post),
            Ok(p),
        ) == A::realloc_spec(pre, ptr, old_layout, layout, post, Ok(p)),
        AbortAlloc(pre).blocks() == pre.blocks(),
        AbortAlloc(pre).inv() == pre.inv(),
{
}

/// The adapter reports a failure of `allocate`, `alloc_zeroed` or `realloc`
/// only where the inner allocator failed on the same call; the report carries
/// an `Infallible`, so it never reaches a caller.
pub proof fn lemma_abort_failure_is_inner_failure<A: ReallocRef>(
    pre: A,
    post: A,
    ptr: usize,
    old_layout: NonZeroLayout,
    layout: NonZeroLayout,
    e: Infallible,
)
    ensures
        AbortAlloc::<A>::allocate_spec(AbortAlloc(pre), layout, AbortAlloc(post), Err(e))
            ==> exists|x: A::Error| A::allocate_spec(pre, layout, post, Err(x)),
        AbortAlloc::<A>::alloc_zeroed_spec(AbortAlloc(pre), layout, AbortAlloc(post), Err(e))
            ==> exists|x: A::Error| A::alloc_zeroed_spec(pre, layout, post, Err(x)),
        AbortAlloc::<A>::realloc_spec(
            AbortAlloc(pre),
            ptr,
            old_layout,
            layout,
            AbortAlloc(post),
            Err(e),
        ) ==> exists|x: A::Error| A::realloc_spec(pre, ptr, old_layout, layout, post, Err(x)),
{
}

/// Where the inner allocator has no successful outcome for an `allocate`
/// call, neither has the adapter: all that is left is an error holding an
/// `Infallible`, a value no code can make, so the call does not return.
pub proof fn lemma_abort_allocate_no_success_when_inner_fails<A: AllocRef>(
    pre: A,
    layout: NonZeroLayout,
    post: A,
    r: Result<usize, Infallible>,
)
    requires
        forall|p: usize| !#[trigger] A::allocate_spec(pre, layout, post, Ok(p)),
        AbortAlloc::<A>::allocate_spec(AbortAlloc(pre), layout, AbortAlloc(post), r),
    ensures
        r is Err,
{
}

/// Where the inner allocator has no successful outcome for a `realloc` call,
/// the adapter hands back no pointer, and the block at `ptr` and every other
/// live block stay as they were.
pub proof fn lemma_abort_realloc_failure_leaves_memory<A: ReallocRef>(
    pre: A,
    ptr: usize,
    old_layout: NonZeroLayout,
    new_layout: NonZeroLayout,
    post: A,
    r: Result<usize, Infallible>,
)
    requires
        forall|q: usize|
            !#[trigger] A::realloc_spec(pre, ptr, old_layout, new_layout, post, Ok(q)),
        AbortAlloc::<A>::realloc_spec(
            AbortAlloc(pre),
            ptr,
            old_layout,
            new_layout,
            AbortAlloc(post),
            r,
        ),
        resized(AbortAlloc(pre).blocks(), AbortAlloc(post).blocks(), ptr, new_layout, r),
    ensures
        r is Err,
        post.blocks() == pre.blocks(),
{
}

/// Building a handle through the adapter and then asking that handle for a
/// builder is the inner allocator's own round trip, wrapped: so the adapter
/// gives back the builder it started from wherever the inner allocator does.
pub proof fn lemma_abort_builder_round_trip<B: BuildAllocRef>(
    b: B,
    b_after: B,
    ptr: usize,
    layout: Option<NonZeroLayout>,
    h: B::Ref,
    h_after: B::Ref,
    fresh: B,
) where B::Ref: DeallocRef<BuildAlloc = B>
    requires
        AbortAlloc::<B>::build_spec(AbortAlloc(b), ptr, layout, AbortAlloc(b_after), AbortAlloc(h)),
        AbortAlloc::<B::Ref>::get_build_spec(AbortAlloc(h), AbortAlloc(h_after), AbortAlloc(fresh)),
    ensures
        B::build_spec(b, ptr, layout, b_after, h),
        B::Ref::get_build_spec(h, h_after, fresh),
{
}

} // verus!
