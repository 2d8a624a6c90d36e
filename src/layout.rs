//! Size and alignment of a memory request, with a non-zero size.
use vstd::prelude::*;

verus! {

/// Whether `n` is a power of two.
pub open spec fn is_pow2(n: int) -> bool
    decreases n,
{
    if n <= 0 {
        false
    } else if n == 1 {
        true
    } else {
        n % 2 == 0 && is_pow2(n / 2)
    }
}

/// The largest size (rounded up to the alignment) that a layout may have.
pub const MAX_LAYOUT_SIZE: usize = usize::MAX / 2;

/// The conditions under which a size and an alignment form a layout.
pub open spec fn valid_layout(size: int, align: int) -> bool {
    &&& size > 0
    &&& is_pow2(align)
    &&& size + (align - 1) <= MAX_LAYOUT_SIZE
}

/// The size and alignment of a memory request. The size is never zero.
#[derive(Clone, Copy, Debug, PartialEq, Eq, Structural)]
pub struct NonZeroLayout {
    size: usize,
    align: usize,
}

impl NonZeroLayout {
    pub closed spec fn spec_size(&self) -> int {
        self.size as int
    }

    pub closed spec fn spec_align(&self) -> int {
        self.align as int
    }

    /// A layout only comes out of `from_size_align`, which checks this.
    pub open spec fn wf(&self) -> bool {
        valid_layout(self.spec_size(), self.spec_align())
    }

    /// The layout of `size` bytes aligned to `align`, where `size` is
    /// non-zero, `align` is a power of two, and the size rounded up to the
    /// alignment does not exceed `MAX_LAYOUT_SIZE`.
    pub fn from_size_align(size: usize, align: usize) -> (r: Option<NonZeroLayout>)
        ensures
            r is Some <==> valid_layout(size as int, align as int),
            r matches Some(l) ==> l.wf() && l.spec_size() == size && l.spec_align() == align,
    {
        if size == 0 || !check_pow2(align) || align - 1 > MAX_LAYOUT_SIZE
            || size > MAX_LAYOUT_SIZE - (align - 1) {
            None
        } else {
            Some(NonZeroLayout { size, align })
        }
    }

    pub fn size(&self) -> (r: usize)
        ensures
            r == self.spec_size(),
    {
        self.size
    }

    pub fn align(&self) -> (r: usize)
        ensures
            r == self.spec_align(),
    {
        self.align
    }
}

fn check_pow2(n: usize) -> (r: bool)
    ensures
        r == is_pow2(n as int),
{
    if n == 0 {
        return false;
    }
    let mut m: usize = n;
    while m > 1 && m % 2 == 0
        invariant
            m > 0,
            is_pow2(n as int) == is_pow2(m as int),
        decreases m,
    {
        m = m / 2;
    }
    m == 1
}

} // verus!
