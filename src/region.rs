//! A fixed-capacity bump allocator over a buffer that it owns.
//!
//! Addresses run from 1 to the capacity; the byte at address `x` is stored at
//! index `x - 1`. Blocks are carved from the front of the free tail; releasing
//! the most recent block gives its space back.
use vstd::prelude::*;
use vstd::arithmetic::div_mod::{lemma_fundamental_div_mod, lemma_mod_multiples_basic};
use crate::capability::{
    fits, zeros, AllocRef, Blocks, BuildAllocRef, DeallocRef, ReallocRef,
};
use crate::abort::{lemma_abort_builder_round_trip, AbortAlloc};
use crate::layout::{NonZeroLayout, MAX_LAYOUT_SIZE};

verus! {

/// The region had no room for the request.
#[derive(Clone, Copy, Debug, PartialEq, Eq, Structural)]
pub struct RegionFull;

/// A handle that owns a zero-initialised buffer and hands out blocks of it.
pub struct Region {
    buf: Vec<u8>,
    /// First address not yet handed out.
    next: usize,
    /// Every byte at this address or above is zero.
    clean: usize,
    /// Start address and size of each live block.
    live: Ghost<Map<usize, nat>>,
}

/// Recipe for regions of one capacity.
#[derive(Clone, Copy, Debug, PartialEq, Eq, Structural)]
pub struct RegionRecipe {
    capacity: usize,
}

/// The least multiple of `align` at or above `n`.
pub open spec fn align_up(n: int, align: int) -> int {
    if n % align == 0 {
        n
    } else {
        n + (align - n % align)
    }
}

proof fn lemma_align_up(n: int, align: int)
    requires
        n >= 1,
        align >= 1,
    ensures
        align_up(n, align) % align == 0,
        n <= align_up(n, align) < n + align,
{
    lemma_fundamental_div_mod(n, align);
    if n % align != 0 {
        assert(align_up(n, align) == (n / align + 1) * align) by (nonlinear_arith)
            requires
                n == align * (n / align) + n % align,
                align_up(n, align) == n + (align - n % align),
        ;
        lemma_mod_multiples_basic(n / align + 1, align);
    }
}

/// Sets bytes `from..to` of `buf` to zero.
fn zero_fill(buf: &mut Vec<u8>, from: usize, to: usize)
    requires
        from <= to <= old(buf)@.len(),
    ensures
        final(buf)@.len() == old(buf)@.len(),
        forall|j: int|
            0 <= j < old(buf)@.len() ==> #[trigger] final(buf)@[j] == if from <= j < to {
                0u8
            } else {
                old(buf)@[j]
            },
{
    let mut i: usize = from;
    while i < to
        invariant
            from <= i <= to <= buf@.len(),
            buf@.len() == old(buf)@.len(),
            forall|j: int|
                0 <= j < buf@.len() ==> #[trigger] buf@[j] == if from <= j < i {
                    0u8
                } else {
                    old(buf)@[j]
                },
        decreases to - i,
    {
        buf.set(i, 0);
        i = i + 1;
    }
}

/// Copies `n` bytes of `buf` from index `src` up to index `dst`, where the
/// source lies wholly below the destination.
fn copy_up(buf: &mut Vec<u8>, src: usize, dst: usize, n: usize)
    requires
        src + n <= dst,
        dst + n <= old(buf)@.len(),
    ensures
        final(buf)@.len() == old(buf)@.len(),
        forall|j: int|
            0 <= j < old(buf)@.len() ==> #[trigger] final(buf)@[j] == if dst <= j < dst + n {
                old(buf)@[src + (j - dst)]
            } else {
                old(buf)@[j]
            },
{
    let len = buf.len();
    let mut i: usize = 0;
    while i < n
        invariant
            len == buf@.len(),
            src + n <= dst,
            dst + n <= buf@.len(),
            i <= n,
            buf@.len() == old(buf)@.len(),
            forall|j: int|
                0 <= j < buf@.len() ==> #[trigger] buf@[j] == if dst <= j < dst + i {
                    old(buf)@[src + (j - dst)]
                } else {
                    old(buf)@[j]
                },
        decreases n - i,
    {
        let b = buf[src + i];
        buf.set(dst + i, b);
        i = i + 1;
    }
}

/// The outcome of carving a block for `layout` out of `pre`: it succeeds
/// exactly where `room` finds space, at the address it names, and moves the
/// first free address past the block; otherwise nothing changes.
pub open spec fn carved(pre: Region, layout: NonZeroLayout, post: Region, r: Result<usize, RegionFull>) -> bool {
    match r {
        Ok(p) => {
            &&& pre.room(layout) == Some(p)
            &&& post.spec_next() == p + layout.spec_size()
            &&& post.spec_capacity() == pre.spec_capacity()
        },
        Err(_) => pre.room(layout) is None && post == pre,
    }
}

impl Blocks for Region {
    closed spec fn blocks(&self) -> Map<usize, Seq<u8>> {
        Map::new(
            |a: usize| self.live@.contains_key(a),
            |a: usize| self.buf@.subrange(a - 1, a - 1 + self.live@[a]),
        )
    }

    closed spec fn inv(&self) -> bool {
        &&& 1 <= self.next <= self.clean <= self.buf@.len() + 1
        &&& self.buf@.len() <= MAX_LAYOUT_SIZE
        &&& forall|a: usize| #[trigger]
            self.live@.contains_key(a) ==> 1 <= a && self.live@[a] > 0 && a + self.live@[a]
                <= self.next
        &&& forall|a: usize, b: usize|
            #![trigger self.live@.contains_key(a), self.live@.contains_key(b)]
            self.live@.contains_key(a) && self.live@.contains_key(b) && a != b ==> a
                + self.live@[a] <= b || b + self.live@[b] <= a
        &&& forall|i: int| self.clean - 1 <= i < self.buf@.len() ==> #[trigger] self.buf@[i] == 0
    }
}

impl Region {
    pub closed spec fn spec_capacity(&self) -> nat {
        self.buf@.len()
    }

    /// The first address not yet handed out.
    pub closed spec fn spec_next(&self) -> nat {
        self.next as nat
    }

    /// A region of `capacity` bytes with nothing handed out. No allocation
    /// in Rust exceeds `MAX_LAYOUT_SIZE` bytes.
    pub fn new(capacity: usize) -> (r: Region)
        requires
            capacity <= MAX_LAYOUT_SIZE,
        ensures
            r.inv(),
            r.blocks() == Map::<usize, Seq<u8>>::empty(),
            r.spec_capacity() == capacity,
            r.spec_next() == 1,
    {
        let mut buf: Vec<u8> = Vec::new();
        let mut i: usize = 0;
        while i < capacity
            invariant
                i <= capacity,
                buf@ == zeros(i as int),
            decreases capacity - i,
        {
            buf.push(0);
            i = i + 1;
        }
        let r = Region { buf, next: 1, clean: 1, live: Ghost(Map::empty()) };
        assert(r.blocks() =~= Map::<usize, Seq<u8>>::empty());
        r
    }

    /// How many bytes the region holds in all.
    pub fn capacity(&self) -> (r: usize)
        ensures
            r == self.spec_capacity(),
    {
        self.buf.len()
    }

    /// Where a block for `layout` would start: the first address at or
    /// above `next` aligned to the layout, if the block fits there.
    pub open spec fn room(&self, layout: NonZeroLayout) -> Option<usize> {
        let start = align_up(self.spec_next() as int, layout.spec_align());
        if start - 1 + layout.spec_size() <= self.spec_capacity() {
            Some(start as usize)
        } else {
            None
        }
    }

    /// Sets aside the block that `room` names.
    fn reserve(&mut self, layout: NonZeroLayout) -> (r: Option<usize>)
        requires
            old(self).inv(),
            layout.wf(),
        ensures
            r == old(self).room(layout),
            final(self).buf@ == old(self).buf@,
            match r {
                Some(p) => {
                    &&& final(self).inv()
                    &&& fits(p, layout)
                    &&& old(self).next <= p
                    &&& !old(self).live@.contains_key(p)
                    &&& final(self).live@ == old(self).live@.insert(p, layout.spec_size() as nat)
                    &&& final(self).next == p + layout.spec_size()
                    &&& old(self).clean <= final(self).clean
                },
                None => *final(self) == *old(self),
            },
    {
        let align = layout.align();
        let size = layout.size();
        let free = self.buf.len() - (self.next - 1);
        let rem = self.next % align;
        let pad = if rem == 0 {
            0
        } else {
            align - rem
        };
        proof {
            lemma_align_up(self.next as int, align as int);
        }
        if pad > free || size > free - pad {
            return None;
        }
        let start = self.next + pad;
        proof {
            assert forall|a: usize| #[trigger] self.live@.contains_key(a) implies a != start by {}
            self.live@ = self.live@.insert(start, size as nat);
        }
        self.next = start + size;
        if self.clean < self.next {
            self.clean = self.next;
        }
        Some(start)
    }

    /// Byte `i` of the live block at `ptr`.
    pub fn read(&self, ptr: usize, i: usize) -> (r: u8)
        requires
            self.inv(),
            self.blocks().contains_key(ptr),
            i < self.blocks()[ptr].len(),
        ensures
            r == self.blocks()[ptr][i as int],
    {
        self.buf[ptr - 1 + i]
    }

    /// Sets byte `i` of the live block at `ptr` to `byte`.
    pub fn write(&mut self, ptr: usize, i: usize, byte: u8)
        requires
            old(self).inv(),
            old(self).blocks().contains_key(ptr),
            i < old(self).blocks()[ptr].len(),
        ensures
            final(self).inv(),
            final(self).spec_capacity() == old(self).spec_capacity(),
            final(self).spec_next() == old(self).spec_next(),
            final(self).blocks() == old(self).blocks().insert(
                ptr,
                old(self).blocks()[ptr].update(i as int, byte),
            ),
    {
        self.buf.set(ptr - 1 + i, byte);
        proof {
            let pre = *old(self);
            assert forall|a: usize| #[trigger]
                self.live@.contains_key(a) && a != ptr implies self.blocks()[a]
                == pre.blocks()[a] by {
                assert(self.blocks()[a] =~= pre.blocks()[a]);
            }
            assert(self.blocks()[ptr] =~= pre.blocks()[ptr].update(i as int, byte));
            assert(self.blocks() =~= pre.blocks().insert(ptr, pre.blocks()[ptr].update(i as int, byte)));
        }
    }
}

impl AllocRef for Region {
    type Error = RegionFull;

    /// Succeeds exactly where `room` finds space, at the address it names.
    open spec fn allocate_spec(
        pre: Self,
        layout: NonZeroLayout,
        post: Self,
        r: Result<usize, RegionFull>,
    ) -> bool {
        carved(pre, layout, post, r)
    }

    open spec fn alloc_zeroed_spec(
        pre: Self,
        layout: NonZeroLayout,
        post: Self,
        r: Result<usize, RegionFull>,
    ) -> bool {
        Self::allocate_spec(pre, layout, post, r)
    }

    fn allocate(&mut self, layout: NonZeroLayout) -> (r: Result<usize, RegionFull>) {
        match self.reserve(layout) {
            Some(p) => {
                proof {
                    let pre = *old(self);
                    assert forall|a: usize| #[trigger]
                        pre.live@.contains_key(a) implies self.blocks()[a] == pre.blocks()[a] by {}
                    assert(self.blocks().remove(p) =~= pre.blocks());
                }
                Ok(p)
            },
            None => Err(RegionFull),
        }
    }

    /// Bytes at or above `clean` are zero already; only those below it are
    /// cleared.
    fn alloc_zeroed(&mut self, layout: NonZeroLayout) -> (r: Result<usize, RegionFull>) {
        let clean0 = self.clean;
        match self.reserve(layout) {
            Some(p) => {
                let from = p - 1;
                let end = from + layout.size();
                let to = if end <= clean0 - 1 {
                    end
                } else if from <= clean0 - 1 {
                    clean0 - 1
                } else {
                    from
                };
                zero_fill(&mut self.buf, from, to);
                proof {
                    let pre = *old(self);
                    assert forall|a: usize| #[trigger]
                        pre.live@.contains_key(a) implies self.blocks()[a] == pre.blocks()[a] by {
                        assert(self.blocks()[a] =~= pre.blocks()[a]);
                    }
                    assert(self.blocks().remove(p) =~= pre.blocks());
                    assert(self.blocks()[p] =~= zeros(layout.spec_size()));
                }
                Ok(p)
            },
            None => Err(RegionFull),
        }
    }
}

impl DeallocRef for Region {
    type BuildAlloc = RegionRecipe;

    open spec fn get_build_spec(pre: Self, post: Self, r: RegionRecipe) -> bool {
        post == pre && r.spec_capacity() == pre.spec_capacity()
    }

    fn get_build_alloc(&mut self) -> (r: RegionRecipe) {
        RegionRecipe { capacity: self.buf.len() }
    }

    /// Gives the space back when the block is the most recent one.
    open spec fn dealloc_spec(pre: Self, ptr: usize, layout: NonZeroLayout, post: Self) -> bool {
        &&& post.spec_capacity() == pre.spec_capacity()
        &&& post.spec_next() == if ptr + layout.spec_size() == pre.spec_next() {
            ptr as nat
        } else {
            pre.spec_next()
        }
    }

    fn dealloc(&mut self, ptr: usize, layout: NonZeroLayout) {
        let size = layout.size();
        proof {
            self.live@ = self.live@.remove(ptr);
        }
        if ptr + size == self.next {
            self.next = ptr;
        }
        proof {
            let pre = *old(self);
            assert forall|a: usize| #[trigger]
                self.live@.contains_key(a) implies self.blocks()[a] == pre.blocks()[a] by {}
            assert(self.blocks() =~= pre.blocks().remove(ptr));
        }
    }
}

impl ReallocRef for Region {
    /// Moves the block to where `room` finds space for the new layout.
    open spec fn realloc_spec(
        pre: Self,
        ptr: usize,
        old_layout: NonZeroLayout,
        new_layout: NonZeroLayout,
        post: Self,
        r: Result<usize, RegionFull>,
    ) -> bool {
        carved(pre, new_layout, post, r)
    }

    fn realloc(&mut self, ptr: usize, old_layout: NonZeroLayout, new_layout: NonZeroLayout) -> (r:
        Result<usize, RegionFull>) {
        let old_size = old_layout.size();
        let new_size = new_layout.size();
        match self.reserve(new_layout) {
            Some(q) => {
                let keep = if old_size <= new_size {
                    old_size
                } else {
                    new_size
                };
                copy_up(&mut self.buf, ptr - 1, q - 1, keep);
                proof {
                    self.live@ = self.live@.remove(ptr);
                    let pre = *old(self);
                    assert forall|a: usize| #[trigger]
                        self.live@.contains_key(a) && a != q implies self.blocks()[a]
                        == pre.blocks()[a] by {
                        assert(self.blocks()[a] =~= pre.blocks()[a]);
                    }
                    assert(self.blocks().remove(q) =~= pre.blocks().remove(ptr));
                }
                Ok(q)
            },
            None => Err(RegionFull),
        }
    }
}

impl RegionRecipe {
    #[verifier::type_invariant]
    spec fn fits_in_memory(&self) -> bool {
        self.capacity <= MAX_LAYOUT_SIZE
    }

    pub closed spec fn spec_capacity(&self) -> nat {
        self.capacity as nat
    }

    /// The recipe for regions of `capacity` bytes, if so much memory can be
    /// had at all.
    pub fn new(capacity: usize) -> (r: Option<RegionRecipe>)
        ensures
            r is Some <==> capacity <= MAX_LAYOUT_SIZE,
            r matches Some(x) ==> x.spec_capacity() == capacity,
    {
        if capacity <= MAX_LAYOUT_SIZE {
            Some(RegionRecipe { capacity })
        } else {
            None
        }
    }

    pub fn capacity(&self) -> (r: usize)
        ensures
            r == self.spec_capacity(),
    {
        self.capacity
    }
}

impl BuildAllocRef for RegionRecipe {
    type Ref = Region;

    /// A fresh, empty region of the recipe's capacity; the address and
    /// layout are not needed, as a region owns its memory.
    open spec fn build_spec(
        pre: Self,
        ptr: usize,
        layout: Option<NonZeroLayout>,
        post: Self,
        r: Region,
    ) -> bool {
        &&& post == pre
        &&& r.inv()
        &&& r.blocks() == Map::<usize, Seq<u8>>::empty()
        &&& r.spec_capacity() == pre.spec_capacity()
        &&& r.spec_next() == 1
    }

    fn build_alloc_ref(&mut self, ptr: usize, layout: Option<NonZeroLayout>) -> (r: Region) {
        proof {
            use_type_invariant(&*self);
        }
        Region::new(self.capacity)
    }
}

/// A region built from a recipe, asked at once for its recipe, gives back
/// the recipe it was built from; the recipe itself is left as it was.
pub proof fn lemma_region_round_trip(
    b: RegionRecipe,
    b_after: RegionRecipe,
    ptr: usize,
    layout: Option<NonZeroLayout>,
    h: Region,
    h_after: Region,
    fresh: RegionRecipe,
)
    requires
        RegionRecipe::build_spec(b, ptr, layout, b_after, h),
        Region::get_build_spec(h, h_after, fresh),
    ensures
        fresh == b,
        b_after == b,
{
}

/// The same round trip through the out-of-memory adapter gives back the
/// adapter's recipe.
pub proof fn lemma_abort_region_round_trip(
    b: AbortAlloc<RegionRecipe>,
    b_after: AbortAlloc<RegionRecipe>,
    ptr: usize,
    layout: Option<NonZeroLayout>,
    h: AbortAlloc<Region>,
    h_after: AbortAlloc<Region>,
    fresh: AbortAlloc<RegionRecipe>,
)
    requires
        AbortAlloc::<RegionRecipe>::build_spec(b, ptr, layout, b_after, h),
        AbortAlloc::<Region>::get_build_spec(h, h_after, fresh),
    ensures
        fresh == b,
{
    lemma_abort_builder_round_trip(b.0, b_after.0, ptr, layout, h.0, h_after.0, fresh.0);
    lemma_region_round_trip(b.0, b_after.0, ptr, layout, h.0, h_after.0, fresh.0);
}

} // verus!
