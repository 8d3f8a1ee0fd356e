use vstd::prelude::*;

verus! {

/// Rounds `offset` up to the next multiple of `alignment`.
pub open spec fn align_up(alignment: int, offset: int) -> int {
    ((offset + alignment - 1) / alignment) * alignment
}

pub proof fn lemma_align_up(alignment: int, offset: int)
    by (nonlinear_arith)
    requires
        alignment > 0,
        offset >= 0,
    ensures
        align_up(alignment, offset) % alignment == 0,
        offset <= align_up(alignment, offset) < offset + alignment,
{
    let q = (offset + alignment - 1) / alignment;
    let r = (offset + alignment - 1) % alignment;
    assert(offset + alignment - 1 == q * alignment + r);
    assert((q * alignment) % alignment == 0);
}

/// Rounds `offset` up to the nearest multiple of `alignment`.
pub fn align(alignment: u64, offset: u64) -> (r: u64)
    requires
        alignment > 0,
        offset + alignment - 1 <= u64::MAX,
    ensures
        r == align_up(alignment as int, offset as int),
        r % alignment == 0,
        offset <= r < offset + alignment,
{
    proof {
        lemma_align_up(alignment as int, offset as int);
    }
    let n = offset + (alignment - 1);
    let q = n / alignment;
    assert(q * alignment <= n) by (nonlinear_arith)
        requires
            q == n / alignment,
            alignment > 0,
    ;
    q * alignment
}

/// A contiguous byte range `[start, end)` inside the memory chunk with
/// index `chunk`.
#[derive(Clone, Copy, Debug, Default, PartialEq, Eq, Structural)]
pub struct Block {
    pub chunk: u32,
    pub start: u64,
    pub end: u64,
}

/// Length of a block in bytes.
pub open spec fn block_len(b: Block) -> int {
    b.end - b.start
}

impl Block {
    pub fn offset(&self) -> (r: u64)
        ensures
            r == self.start,
    {
        self.start
    }

    pub fn size(&self) -> (r: u64)
        requires
            self.start <= self.end,
        ensures
            r == self.end - self.start,
    {
        self.end - self.start
    }

    pub fn is_empty(&self) -> (r: bool)
        ensures
            r == (self.start == self.end),
    {
        self.start == self.end
    }
}

} // verus!
