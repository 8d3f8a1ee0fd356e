use std::ops::Range;

use vstd::prelude::*;

use super::block::{align, align_up, block_len, Block};

verus! {

// ---------------------------------------------------------------------
// Model of the free list
// ---------------------------------------------------------------------

/// `a` lies strictly before `b` in address order and the two do not touch.
pub open spec fn precedes(a: Block, b: Block) -> bool {
    a.chunk < b.chunk || (a.chunk == b.chunk && a.end < b.start)
}

/// `a` and `b` share no byte.
pub open spec fn disjoint(a: Block, b: Block) -> bool {
    a.chunk != b.chunk || a.end <= b.start || b.end <= a.start
}

/// `b` is a well-formed range inside one of the chunks.
pub open spec fn block_in_chunks(b: Block, chunks: Seq<u64>) -> bool {
    &&& b.chunk < chunks.len()
    &&& b.start <= b.end
    &&& b.end <= chunks[b.chunk as int]
}

/// The free list is address ordered, its blocks lie inside their chunks,
/// and no two of them touch or overlap.
pub open spec fn free_list_wf(free: Seq<Block>, chunks: Seq<u64>) -> bool {
    &&& forall|i: int| 0 <= i < free.len() ==> block_in_chunks(#[trigger] free[i], chunks)
    &&& forall|i: int, j: int|
        0 <= i < j < free.len() ==> precedes(#[trigger] free[i], #[trigger] free[j])
}

/// Total number of bytes in a list of blocks.
pub open spec fn total_len(s: Seq<Block>) -> int
    decreases s.len(),
{
    if s.len() == 0 {
        0
    } else {
        total_len(s.drop_last()) + block_len(s.last())
    }
}

/// Sum of a list of chunk sizes.
pub open spec fn total_size(s: Seq<u64>) -> int
    decreases s.len(),
{
    if s.len() == 0 {
        0
    } else {
        total_size(s.drop_last()) + s.last()
    }
}

/// A request of `size` bytes aligned to `alignment` fits inside `b`.
pub open spec fn fits(b: Block, size: int, alignment: int) -> bool {
    align_up(alignment, b.start as int) + size <= b.end
}

/// Some block of `s` fits the request.
pub open spec fn some_fit(s: Seq<Block>, size: int, alignment: int) -> bool {
    exists|i: int| 0 <= i < s.len() && #[trigger] fits(s[i], size, alignment)
}

/// `i` is the first block of `s` that a request fits into.
pub open spec fn is_first_fit(s: Seq<Block>, size: int, alignment: int, i: int) -> bool {
    &&& 0 <= i < s.len()
    &&& fits(s[i], size, alignment)
    &&& forall|j: int| 0 <= j < i ==> !fits(#[trigger] s[j], size, alignment)
}

/// The block that a fitting request takes out of `b`.
pub open spec fn placed(b: Block, size: int, alignment: int) -> Block {
    Block {
        chunk: b.chunk,
        start: align_up(alignment, b.start as int) as u64,
        end: (align_up(alignment, b.start as int) + size) as u64,
    }
}

/// Free list after the range `[rs, re)` is cut out of block `i`: the
/// tail stays (unless empty) and a padding block is put back in front
/// of it when the range does not start at the block's start.
pub open spec fn carve(s: Seq<Block>, i: int, rs: u64, re: u64) -> Seq<Block> {
    let old = s[i];
    let rest = if re == old.end {
        s.remove(i)
    } else {
        s.update(i, Block { chunk: old.chunk, start: re, end: old.end })
    };
    if rs > old.start {
        rest.insert(i, Block { chunk: old.chunk, start: old.start, end: rs })
    } else {
        rest
    }
}

/// Outcome of a successful first-fit allocation: the chosen block is the
/// first one that fits, the result is placed at its aligned start, and
/// the free list is carved accordingly.
pub open spec fn alloc_outcome(
    free: Seq<Block>,
    size: int,
    alignment: int,
    b: Block,
    free2: Seq<Block>,
) -> bool {
    exists|i: int|
        #![trigger is_first_fit(free, size, alignment, i)]
        is_first_fit(free, size, alignment, i) && b == placed(free[i], size, alignment) && free2
            == carve(free, i, b.start, b.end)
}

/// A freed block at `start` in `chunk` goes in front of block `b` in the
/// free list: `b` lies in a later chunk, or further into the same one.
pub open spec fn goes_before(b: Block, chunk: u32, start: u64) -> bool {
    b.chunk > chunk || (b.chunk == chunk && start < b.start)
}

/// `idx` is the first position whose block comes after `(chunk, start)`
/// in address order, or the end of the list when there is none.
pub open spec fn is_insert_pos(s: Seq<Block>, chunk: u32, start: u64, idx: int) -> bool {
    &&& 0 <= idx <= s.len()
    &&& forall|j: int| 0 <= j < idx ==> !goes_before(#[trigger] s[j], chunk, start)
    &&& idx < s.len() ==> goes_before(s[idx], chunk, start)
}

/// Position at which a freed block is inserted.
pub open spec fn insert_pos(s: Seq<Block>, chunk: u32, start: u64) -> int {
    choose|idx: int| is_insert_pos(s, chunk, start, idx)
}

/// A block may be returned to the free list: it is not empty and shares
/// no byte with a free block.
pub open spec fn free_accepts(s: Seq<Block>, b: Block) -> bool {
    &&& b.start < b.end
    &&& forall|k: int| 0 <= k < s.len() ==> disjoint(#[trigger] s[k], b)
}

/// The neighbours of the insertion point are consistent with the freed
/// block: the left one ends before it and the right one starts after it.
pub open spec fn release_ok(s: Seq<Block>, b: Block) -> bool {
    let idx = insert_pos(s, b.chunk, b.start);
    &&& idx > 0 ==> {
        let l = s[idx - 1];
        l.chunk <= b.chunk && (l.chunk < b.chunk || l.end <= b.start)
    }
    &&& idx < s.len() ==> {
        let r = s[idx];
        b.chunk <= r.chunk && (b.chunk < r.chunk || b.end <= r.start)
    }
}

/// Free list after `b` is returned to it, merged with the neighbours it
/// touches.
pub open spec fn release(s: Seq<Block>, b: Block) -> Seq<Block> {
    let idx = insert_pos(s, b.chunk, b.start);
    let ml = idx > 0 && s[idx - 1].chunk == b.chunk && s[idx - 1].end == b.start;
    let mr = idx < s.len() && s[idx].chunk == b.chunk && b.end == s[idx].start;
    if !ml && !mr {
        s.insert(idx, b)
    } else if ml && !mr {
        s.update(idx - 1, Block { chunk: s[idx - 1].chunk, start: s[idx - 1].start, end: b.end })
    } else if !ml && mr {
        s.update(idx, Block { chunk: s[idx].chunk, start: b.start, end: s[idx].end })
    } else {
        s.update(
            idx - 1,
            Block { chunk: s[idx - 1].chunk, start: s[idx - 1].start, end: s[idx].end },
        ).remove(idx)
    }
}

/// One free block spanning each chunk.
pub open spec fn whole_chunks(chunks: Seq<u64>) -> Seq<Block> {
    Seq::new(chunks.len(), |i: int| Block { chunk: i as u32, start: 0, end: chunks[i] })
}

/// `s` with the positions `lo..hi` replaced by `mid`.
pub open spec fn splice(s: Seq<Block>, lo: int, hi: int, mid: Seq<Block>) -> Seq<Block> {
    s.subrange(0, lo) + mid + s.subrange(hi, s.len() as int)
}

/// Byte `a` of `chunk` lies in block `b`.
pub open spec fn in_block(b: Block, chunk: u32, a: int) -> bool {
    b.chunk == chunk && b.start <= a < b.end
}

/// Byte `a` of `chunk` lies in some block of `s`.
pub open spec fn covered(s: Seq<Block>, chunk: u32, a: int) -> bool {
    exists|k: int| 0 <= k < s.len() && #[trigger] in_block(s[k], chunk, a)
}

// ---------------------------------------------------------------------
// Lemmas about the model
// ---------------------------------------------------------------------

proof fn lemma_total_len_concat(a: Seq<Block>, b: Seq<Block>)
    ensures
        total_len(a + b) == total_len(a) + total_len(b),
    decreases b.len(),
{
    if b.len() == 0 {
        assert(a + b =~= a);
    } else {
        lemma_total_len_concat(a, b.drop_last());
        assert((a + b).drop_last() =~= a + b.drop_last());
    }
}

proof fn lemma_total_len_one(x: Block)
    ensures
        total_len(seq![x]) == block_len(x),
{
    assert(seq![x].drop_last() =~= Seq::<Block>::empty());
    assert(total_len(Seq::<Block>::empty()) == 0);
    assert(seq![x].last() == x);
}

proof fn lemma_total_len_two(x: Block, y: Block)
    ensures
        total_len(seq![x, y]) == block_len(x) + block_len(y),
{
    assert(seq![x, y] =~= seq![x] + seq![y]);
    lemma_total_len_concat(seq![x], seq![y]);
    lemma_total_len_one(x);
    lemma_total_len_one(y);
}

proof fn lemma_total_len_nonneg(s: Seq<Block>)
    requires
        forall|k: int| 0 <= k < s.len() ==> (#[trigger] s[k]).start <= s[k].end,
    ensures
        total_len(s) >= 0,
    decreases s.len(),
{
    if s.len() > 0 {
        lemma_total_len_nonneg(s.drop_last());
    }
}

proof fn lemma_total_len_elem(s: Seq<Block>, i: int)
    requires
        0 <= i < s.len(),
        forall|k: int| 0 <= k < s.len() ==> (#[trigger] s[k]).start <= s[k].end,
    ensures
        total_len(s) >= block_len(s[i]),
{
    let a = s.subrange(0, i);
    let c = s.subrange(i + 1, s.len() as int);
    assert(s =~= a + seq![s[i]] + c);
    lemma_total_len_concat(a + seq![s[i]], c);
    lemma_total_len_concat(a, seq![s[i]]);
    lemma_total_len_one(s[i]);
    lemma_total_len_nonneg(a);
    lemma_total_len_nonneg(c);
}

proof fn lemma_total_size_nonneg(s: Seq<u64>)
    ensures
        total_size(s) >= 0,
    decreases s.len(),
{
    if s.len() > 0 {
        lemma_total_size_nonneg(s.drop_last());
    }
}

proof fn lemma_total_size_elem(s: Seq<u64>, i: int)
    requires
        0 <= i < s.len(),
    ensures
        total_size(s) >= s[i],
    decreases s.len(),
{
    if i == s.len() - 1 {
        lemma_total_size_nonneg(s.drop_last());
    } else {
        lemma_total_size_elem(s.drop_last(), i);
    }
}

/// Every free block lies below the reserved total.
proof fn lemma_block_below_total(free: Seq<Block>, chunks: Seq<u64>, i: int)
    requires
        free_list_wf(free, chunks),
        0 <= i < free.len(),
    ensures
        free[i].start <= free[i].end <= total_size(chunks),
{
    assert(block_in_chunks(free[i], chunks));
    lemma_total_size_elem(chunks, free[i].chunk as int);
}

proof fn lemma_insert_pos(s: Seq<Block>, chunk: u32, start: u64, idx: int)
    requires
        is_insert_pos(s, chunk, start, idx),
    ensures
        insert_pos(s, chunk, start) == idx,
{
    let k = insert_pos(s, chunk, start);
    assert(is_insert_pos(s, chunk, start, k));
    if k < idx {
        assert(goes_before(s[k], chunk, start));
        assert(false);
    }
    if idx < k {
        assert(goes_before(s[idx], chunk, start));
        assert(false);
    }
}

proof fn lemma_insert_pos_exists(s: Seq<Block>, chunk: u32, start: u64)
    ensures
        exists|idx: int| is_insert_pos(s, chunk, start, idx),
        is_insert_pos(s, chunk, start, insert_pos(s, chunk, start)),
    decreases s.len(),
{
    if s.len() == 0 {
        assert(is_insert_pos(s, chunk, start, 0));
    } else {
        let t = s.drop_last();
        lemma_insert_pos_exists(t, chunk, start);
        assert forall|j: int| 0 <= j < t.len() implies s[j] == t[j] by {}
        let k = insert_pos(t, chunk, start);
        if k < t.len() {
            assert(is_insert_pos(s, chunk, start, k));
        } else if goes_before(s.last(), chunk, start) {
            assert(is_insert_pos(s, chunk, start, t.len() as int));
        } else {
            assert(is_insert_pos(s, chunk, start, s.len() as int));
        }
    }
}

/// Replacing positions `lo..hi` by a sorted run that fits between the
/// neighbours keeps the list well formed; the byte total changes by the
/// difference.
proof fn lemma_splice(s: Seq<Block>, chunks: Seq<u64>, lo: int, hi: int, mid: Seq<Block>)
    requires
        free_list_wf(s, chunks),
        0 <= lo <= hi <= s.len(),
        free_list_wf(mid, chunks),
        lo > 0 ==> forall|j: int| 0 <= j < mid.len() ==> precedes(s[lo - 1], #[trigger] mid[j]),
        hi < s.len() ==> forall|j: int| 0 <= j < mid.len() ==> precedes(#[trigger] mid[j], s[hi]),
    ensures
        free_list_wf(splice(s, lo, hi, mid), chunks),
        total_len(splice(s, lo, hi, mid)) == total_len(s) - total_len(s.subrange(lo, hi))
            + total_len(mid),
{
    let a = s.subrange(0, lo);
    let m = s.subrange(lo, hi);
    let c = s.subrange(hi, s.len() as int);
    let r = splice(s, lo, hi, mid);
    assert(s =~= a + m + c);
    lemma_total_len_concat(a + m, c);
    lemma_total_len_concat(a, m);
    lemma_total_len_concat(a + mid, c);
    lemma_total_len_concat(a, mid);
    assert forall|k: int| 0 <= k < r.len() implies block_in_chunks(#[trigger] r[k], chunks) by {
        if k < lo {
            assert(r[k] == s[k]);
        } else if k < lo + mid.len() {
            assert(r[k] == mid[k - lo]);
        } else {
            assert(r[k] == s[k - lo - mid.len() + hi]);
        }
    }
    assert forall|x: int, y: int| 0 <= x < y < r.len() implies precedes(
        #[trigger] r[x],
        #[trigger] r[y],
    ) by {
        let ml = mid.len() as int;
        if y < lo {
            assert(r[x] == s[x] && r[y] == s[y]);
        } else if x < lo && y < lo + ml {
            assert(r[x] == s[x] && r[y] == mid[y - lo]);
            assert(block_in_chunks(s[lo - 1], chunks));
            if x < lo - 1 {
                assert(precedes(s[x], s[lo - 1]));
            }
            assert(precedes(s[lo - 1], mid[y - lo]));
        } else if x < lo {
            let yy = y - lo - ml + hi;
            assert(r[x] == s[x] && r[y] == s[yy]);
            assert(precedes(s[x], s[yy]));
        } else if y < lo + ml {
            assert(r[x] == mid[x - lo] && r[y] == mid[y - lo]);
        } else if x < lo + ml {
            let yy = y - lo - ml + hi;
            assert(r[x] == mid[x - lo] && r[y] == s[yy]);
            assert(block_in_chunks(s[hi], chunks));
            assert(precedes(mid[x - lo], s[hi]));
            if yy > hi {
                assert(precedes(s[hi], s[yy]));
            }
        } else {
            let xx = x - lo - ml + hi;
            let yy = y - lo - ml + hi;
            assert(r[x] == s[xx] && r[y] == s[yy]);
        }
    }
}

proof fn lemma_total_len_sub_one(s: Seq<Block>, i: int)
    requires
        0 <= i < s.len(),
    ensures
        total_len(s.subrange(i, i + 1)) == block_len(s[i]),
{
    assert(s.subrange(i, i + 1) =~= seq![s[i]]);
    lemma_total_len_one(s[i]);
}

proof fn lemma_total_len_sub_two(s: Seq<Block>, i: int)
    requires
        0 <= i,
        i + 1 < s.len(),
    ensures
        total_len(s.subrange(i, i + 2)) == block_len(s[i]) + block_len(s[i + 1]),
{
    assert(s.subrange(i, i + 2) =~= seq![s[i], s[i + 1]]);
    lemma_total_len_two(s[i], s[i + 1]);
}

/// The four shapes of a carved list, as splices.
proof fn lemma_carve_shape(s: Seq<Block>, i: int, rs: u64, re: u64)
    requires
        0 <= i < s.len(),
    ensures
        ({
            let old = s[i];
            let pad = Block { chunk: old.chunk, start: old.start, end: rs };
            let tail = Block { chunk: old.chunk, start: re, end: old.end };
            let mid = if rs > old.start {
                if re == old.end {
                    seq![pad]
                } else {
                    seq![pad, tail]
                }
            } else {
                if re == old.end {
                    Seq::<Block>::empty()
                } else {
                    seq![tail]
                }
            };
            carve(s, i, rs, re) == splice(s, i, i + 1, mid)
        }),
{
    let old = s[i];
    let pad = Block { chunk: old.chunk, start: old.start, end: rs };
    let tail = Block { chunk: old.chunk, start: re, end: old.end };
    if rs > old.start {
        if re == old.end {
            assert(carve(s, i, rs, re) =~= splice(s, i, i + 1, seq![pad]));
        } else {
            assert(carve(s, i, rs, re) =~= splice(s, i, i + 1, seq![pad, tail]));
        }
    } else {
        if re == old.end {
            assert(carve(s, i, rs, re) =~= splice(s, i, i + 1, Seq::<Block>::empty()));
        } else {
            assert(carve(s, i, rs, re) =~= splice(s, i, i + 1, seq![tail]));
        }
    }
}

/// Cutting `[rs, re)` out of a free block keeps the free list well
/// formed, lowers its byte total by the size of the range, and leaves
/// no free block overlapping the range.
pub proof fn lemma_carve(s: Seq<Block>, chunks: Seq<u64>, i: int, rs: u64, re: u64)
    requires
        free_list_wf(s, chunks),
        0 <= i < s.len(),
        s[i].start <= rs < re <= s[i].end,
    ensures
        free_list_wf(carve(s, i, rs, re), chunks),
        total_len(carve(s, i, rs, re)) == total_len(s) - (re - rs),
        forall|k: int|
            0 <= k < carve(s, i, rs, re).len() ==> disjoint(
                #[trigger] carve(s, i, rs, re)[k],
                Block { chunk: s[i].chunk, start: rs, end: re },
            ),
{
    let old = s[i];
    let pad = Block { chunk: old.chunk, start: old.start, end: rs };
    let tail = Block { chunk: old.chunk, start: re, end: old.end };
    let r = Block { chunk: old.chunk, start: rs, end: re };
    let mid = if rs > old.start {
        if re == old.end {
            seq![pad]
        } else {
            seq![pad, tail]
        }
    } else {
        if re == old.end {
            Seq::<Block>::empty()
        } else {
            seq![tail]
        }
    };
    lemma_carve_shape(s, i, rs, re);
    assert(block_in_chunks(old, chunks));
    assert forall|j: int| 0 <= j < mid.len() implies block_in_chunks(#[trigger] mid[j], chunks)
        && old.start <= mid[j].start && mid[j].end <= old.end && disjoint(mid[j], r)
        && mid[j].chunk == old.chunk by {}
    assert forall|x: int, y: int| 0 <= x < y < mid.len() implies precedes(
        #[trigger] mid[x],
        #[trigger] mid[y],
    ) by {}
    if i > 0 {
        assert(precedes(s[i - 1], old));
        assert forall|j: int| 0 <= j < mid.len() implies precedes(s[i - 1], #[trigger] mid[j]) by {}
    }
    if i + 1 < s.len() {
        assert(precedes(old, s[i + 1]));
        assert forall|j: int| 0 <= j < mid.len() implies precedes(#[trigger] mid[j], s[i + 1]) by {}
    }
    lemma_splice(s, chunks, i, i + 1, mid);
    lemma_total_len_sub_one(s, i);
    if rs > old.start {
        if re == old.end {
            lemma_total_len_one(pad);
        } else {
            lemma_total_len_two(pad, tail);
        }
    } else {
        if re != old.end {
            lemma_total_len_one(tail);
        }
    }
    let c = carve(s, i, rs, re);
    assert forall|k: int| 0 <= k < c.len() implies disjoint(#[trigger] c[k], r) by {
        let ml = mid.len() as int;
        if k < i {
            assert(c[k] == s[k]);
            assert(precedes(s[k], old));
        } else if k < i + ml {
            assert(c[k] == mid[k - i]);
        } else {
            assert(c[k] == s[k - ml + 1]);
            assert(precedes(old, s[k - ml + 1]));
        }
    }
}

proof fn lemma_total_size_prefix(chunks: Seq<u64>, k: int)
    requires
        0 <= k < chunks.len(),
    ensures
        total_size(chunks.subrange(0, k + 1)) == total_size(chunks.subrange(0, k)) + chunks[k],
{
    assert(chunks.subrange(0, k + 1).drop_last() =~= chunks.subrange(0, k));
}

proof fn lemma_total_size_prefix_grows(chunks: Seq<u64>, j: int, k: int)
    requires
        0 <= j <= k <= chunks.len(),
    ensures
        total_size(chunks.subrange(0, j)) <= total_size(chunks.subrange(0, k)),
    decreases k - j,
{
    if j < k {
        lemma_total_size_prefix_grows(chunks, j, k - 1);
        lemma_total_size_prefix(chunks, k - 1);
    }
}

/// The bytes of a well-formed free list up to its last block lie below
/// the end of that block, counted over the chunks before it.
proof fn lemma_total_len_bound(s: Seq<Block>, chunks: Seq<u64>)
    requires
        free_list_wf(s, chunks),
        s.len() > 0,
    ensures
        total_len(s) <= total_size(chunks.subrange(0, s.last().chunk as int)) + s.last().end,
    decreases s.len(),
{
    let l = s.last();
    let t = s.drop_last();
    assert(block_in_chunks(s[s.len() - 1], chunks));
    lemma_total_size_nonneg(chunks.subrange(0, l.chunk as int));
    assert(total_len(s) == total_len(t) + block_len(l));
    if t.len() == 0 {
        assert(total_len(t) == 0);
    } else {
        assert(free_list_wf(t, chunks)) by {
            assert forall|i: int| 0 <= i < t.len() implies block_in_chunks(#[trigger] t[i], chunks) by {
                assert(t[i] == s[i]);
            }
            assert forall|i: int, j: int| 0 <= i < j < t.len() implies precedes(#[trigger] t[i], #[trigger] t[j]) by {
                assert(t[i] == s[i] && t[j] == s[j]);
            }
        }
        lemma_total_len_bound(t, chunks);
        let p = t.last();
        assert(p == s[s.len() - 2]);
        assert(precedes(s[s.len() - 2], s[s.len() - 1]));
        assert(block_in_chunks(s[s.len() - 2], chunks));
        assert(total_len(t) <= total_size(chunks.subrange(0, p.chunk as int)) + p.end);
        if p.chunk < l.chunk {
            lemma_total_size_prefix(chunks, p.chunk as int);
            lemma_total_size_prefix_grows(chunks, p.chunk + 1, l.chunk as int);
            assert(p.end <= chunks[p.chunk as int]);
            assert(total_len(t) <= total_size(chunks.subrange(0, l.chunk as int)));
        } else {
            assert(p.chunk == l.chunk && p.end < l.start);
        }
    }
}

/// A well-formed free list holds no more bytes than the chunks.
pub proof fn lemma_free_within_chunks(s: Seq<Block>, chunks: Seq<u64>)
    requires
        free_list_wf(s, chunks),
    ensures
        total_len(s) <= total_size(chunks),
{
    if s.len() > 0 {
        lemma_total_len_bound(s, chunks);
        let c = s.last().chunk as int;
        assert(block_in_chunks(s[s.len() - 1], chunks));
        lemma_total_size_prefix(chunks, c);
        lemma_total_size_prefix_grows(chunks, c + 1, chunks.len() as int);
        assert(chunks.subrange(0, chunks.len() as int) =~= chunks);
        assert(s.last().end <= chunks[c]);
        assert(total_len(s) <= total_size(chunks.subrange(0, c + 1)));
    } else {
        lemma_total_size_nonneg(chunks);
    }
}

/// A block that is not empty and overlaps no free block has neighbours
/// consistent with it at its insertion point.
proof fn lemma_accepts_release_ok(s: Seq<Block>, chunks: Seq<u64>, b: Block)
    requires
        free_list_wf(s, chunks),
        free_accepts(s, b),
    ensures
        release_ok(s, b),
{
    lemma_insert_pos_exists(s, b.chunk, b.start);
    let idx = insert_pos(s, b.chunk, b.start);
    if idx > 0 {
        assert(!goes_before(s[idx - 1], b.chunk, b.start));
        assert(disjoint(s[idx - 1], b));
    }
    if idx < s.len() {
        assert(goes_before(s[idx], b.chunk, b.start));
        assert(disjoint(s[idx], b));
        assert(block_in_chunks(s[idx], chunks));
    }
}

/// Returning a block whose neighbours are consistent with it keeps the
/// free list well formed and raises its byte total by the block's size.
pub proof fn lemma_release(s: Seq<Block>, chunks: Seq<u64>, b: Block)
    requires
        free_list_wf(s, chunks),
        block_in_chunks(b, chunks),
        release_ok(s, b),
    ensures
        free_list_wf(release(s, b), chunks),
        total_len(release(s, b)) == total_len(s) + block_len(b),
{
    let idx = insert_pos(s, b.chunk, b.start);
    lemma_insert_pos_exists(s, b.chunk, b.start);
    assert(is_insert_pos(s, b.chunk, b.start, idx));
    let n = s.len() as int;
    let ml = idx > 0 && s[idx - 1].chunk == b.chunk && s[idx - 1].end == b.start;
    let mr = idx < n && s[idx].chunk == b.chunk && b.end == s[idx].start;
    if idx > 0 {
        assert(block_in_chunks(s[idx - 1], chunks));
    }
    if idx < n {
        assert(block_in_chunks(s[idx], chunks));
    }
    lemma_total_len_one(b);
    if !ml && !mr {
        assert(release(s, b) =~= splice(s, idx, idx, seq![b]));
        assert(s.subrange(idx, idx) =~= Seq::<Block>::empty());
        lemma_splice(s, chunks, idx, idx, seq![b]);
    } else if ml && !mr {
        let nb = Block { chunk: s[idx - 1].chunk, start: s[idx - 1].start, end: b.end };
        assert(release(s, b) =~= splice(s, idx - 1, idx, seq![nb]));
        if idx > 1 {
            assert(precedes(s[idx - 2], s[idx - 1]));
        }
        lemma_splice(s, chunks, idx - 1, idx, seq![nb]);
        lemma_total_len_sub_one(s, idx - 1);
        lemma_total_len_one(nb);
    } else if !ml && mr {
        let nb = Block { chunk: s[idx].chunk, start: b.start, end: s[idx].end };
        assert(release(s, b) =~= splice(s, idx, idx + 1, seq![nb]));
        if idx + 1 < n {
            assert(precedes(s[idx], s[idx + 1]));
        }
        lemma_splice(s, chunks, idx, idx + 1, seq![nb]);
        lemma_total_len_sub_one(s, idx);
        lemma_total_len_one(nb);
    } else {
        let nb = Block { chunk: s[idx - 1].chunk, start: s[idx - 1].start, end: s[idx].end };
        assert(release(s, b) =~= splice(s, idx - 1, idx + 1, seq![nb]));
        if idx > 1 {
            assert(precedes(s[idx - 2], s[idx - 1]));
        }
        if idx + 1 < n {
            assert(precedes(s[idx], s[idx + 1]));
        }
        lemma_splice(s, chunks, idx - 1, idx + 1, seq![nb]);
        lemma_total_len_sub_two(s, idx - 1);
        lemma_total_len_one(nb);
    }
}

proof fn lemma_whole_chunks(chunks: Seq<u64>)
    requires
        chunks.len() <= u32::MAX + 1,
    ensures
        free_list_wf(whole_chunks(chunks), chunks),
        total_len(whole_chunks(chunks)) == total_size(chunks),
    decreases chunks.len(),
{
    let w = whole_chunks(chunks);
    if chunks.len() > 0 {
        let c = chunks.drop_last();
        lemma_whole_chunks(c);
        assert(w.drop_last() =~= whole_chunks(c));
    }
}

// ---------------------------------------------------------------------
// The allocator
// ---------------------------------------------------------------------

/// Address-ordered first-fit allocation over a growing set of chunks.
#[derive(Debug)]
pub struct FreeListAllocator {
    capacity: u64,
    used: u64,
    // List of chunk sizes
    chunks: Vec<u64>,
    free: Vec<Block>,
}

impl FreeListAllocator {
    /// Sum of the sizes of all chunks.
    pub closed spec fn reserved_bytes(&self) -> nat {
        self.capacity as nat
    }

    /// Bytes currently handed out.
    pub closed spec fn used_bytes(&self) -> nat {
        self.used as nat
    }

    /// Size of each chunk, by chunk index.
    pub closed spec fn chunk_sizes(&self) -> Seq<u64> {
        self.chunks@
    }

    /// The free blocks, in address order.
    pub closed spec fn free_blocks(&self) -> Seq<Block> {
        self.free@
    }

    pub closed spec fn wf(&self) -> bool {
        &&& free_list_wf(self.free@, self.chunks@)
        &&& self.chunks@.len() <= u32::MAX + 1
        &&& self.capacity == total_size(self.chunks@)
        &&& self.used + total_len(self.free@) == self.capacity
    }

    /// Bytes in use plus bytes on the free list make up all reserved
    /// bytes; every free block lies inside its chunk; the free list is
    /// address ordered with no two blocks touching.
    pub proof fn law_accounting(&self)
        requires
            self.wf(),
        ensures
            self.used_bytes() + total_len(self.free_blocks()) == self.reserved_bytes(),
            self.used_bytes() <= self.reserved_bytes(),
            self.reserved_bytes() == total_size(self.chunk_sizes()),
            free_list_wf(self.free_blocks(), self.chunk_sizes()),
            self.chunk_sizes().len() <= u32::MAX + 1,
    {
        lemma_total_len_nonneg(self.free@);
    }

    pub fn new() -> (r: Self)
        ensures
            r.wf(),
            r.reserved_bytes() == 0,
            r.used_bytes() == 0,
            r.chunk_sizes() == Seq::<u64>::empty(),
            r.free_blocks() == Seq::<Block>::empty(),
    {
        FreeListAllocator { capacity: 0, used: 0, chunks: Vec::new(), free: Vec::new() }
    }

    pub fn used(&self) -> (r: u64)
        ensures
            r == self.used_bytes(),
    {
        self.used
    }

    pub fn capacity(&self) -> (r: u64)
        ensures
            r == self.reserved_bytes(),
    {
        self.capacity
    }

    /// The free blocks, in address order.
    pub fn free_list(&self) -> (r: &[Block])
        ensures
            r@ == self.free_blocks(),
    {
        self.free.as_slice()
    }

    pub fn chunk_count(&self) -> (r: usize)
        ensures
            r == self.chunk_sizes().len(),
    {
        self.chunks.len()
    }

    /// Adds a chunk of `size` bytes, which becomes one free block.
    pub fn add_chunk(&mut self, size: u64)
        requires
            old(self).wf(),
            old(self).reserved_bytes() + size <= u64::MAX,
            old(self).chunk_sizes().len() <= u32::MAX,
        ensures
            final(self).wf(),
            final(self).reserved_bytes() == old(self).reserved_bytes() + size,
            final(self).used_bytes() == old(self).used_bytes(),
            final(self).chunk_sizes() == old(self).chunk_sizes().push(size),
            final(self).free_blocks() == old(self).free_blocks().push(
                Block { chunk: old(self).chunk_sizes().len() as u32, start: 0, end: size },
            ),
    {
        let ghost old_chunks = self.chunks@;
        let ghost old_free = self.free@;
        self.capacity = self.capacity + size;
        self.chunks.push(size);
        let chunk = (self.chunks.len() - 1) as u32;
        self.free.push(Block { chunk, start: 0, end: size });
        proof {
            assert(self.chunks@.drop_last() =~= old_chunks);
            assert(self.free@.drop_last() =~= old_free);
            assert forall|i: int| 0 <= i < self.free@.len() implies block_in_chunks(
                #[trigger] self.free@[i],
                self.chunks@,
            ) by {
                if i < old_free.len() {
                    assert(block_in_chunks(old_free[i], old_chunks));
                }
            }
            assert forall|i: int, j: int| 0 <= i < j < self.free@.len() implies precedes(
                #[trigger] self.free@[i],
                #[trigger] self.free@[j],
            ) by {
                if j < old_free.len() {
                    assert(precedes(old_free[i], old_free[j]));
                } else {
                    assert(block_in_chunks(old_free[i], old_chunks));
                }
            }
        }
    }

    /// Marks `range` inside free block `index` as used.
    pub fn carve_block(&mut self, index: usize, range: Range<u64>)
        requires
            old(self).wf(),
            index < old(self).free_blocks().len(),
            old(self).free_blocks()[index as int].start <= range.start,
            range.start < range.end,
            range.end <= old(self).free_blocks()[index as int].end,
        ensures
            final(self).wf(),
            final(self).used_bytes() == old(self).used_bytes() + (range.end - range.start),
            final(self).free_blocks() == carve(
                old(self).free_blocks(),
                index as int,
                range.start,
                range.end,
            ),
            final(self).chunk_sizes() == old(self).chunk_sizes(),
            final(self).reserved_bytes() == old(self).reserved_bytes(),
    {
        let ghost s = self.free@;
        proof {
            lemma_total_len_elem(s, index as int);
            lemma_carve(s, self.chunks@, index as int, range.start, range.end);
        }
        self.used = self.used + (range.end - range.start);

        let old_block = self.free[index];

        // Resize/cull old block
        let block = Block { chunk: old_block.chunk, start: range.end, end: old_block.end };
        self.free.set(index, block);
        if block.is_empty() {
            self.free.remove(index);
        }

        // Insert padding block if necessary
        let chunk_idx = old_block.chunk;
        if range.start > old_block.start {
            let block = Block { chunk: chunk_idx, start: old_block.start, end: range.start };
            self.free.insert(index, block);
        }
        proof {
            if range.end == old_block.end {
                assert(s.update(index as int, block).remove(index as int) =~= s.remove(
                    index as int,
                ));
            }
        }
    }

    /// Tries to place `size` bytes aligned to `alignment` in free block
    /// `block_idx`.
    pub fn alloc_in(&mut self, block_idx: usize, size: u64, alignment: u64) -> (r: Option<Block>)
        requires
            old(self).wf(),
            block_idx < old(self).free_blocks().len(),
            alignment > 0,
            size > 0,
            old(self).reserved_bytes() + alignment + size <= u64::MAX,
        ensures
            final(self).wf(),
            final(self).chunk_sizes() == old(self).chunk_sizes(),
            final(self).reserved_bytes() == old(self).reserved_bytes(),
            ({
                let b = old(self).free_blocks()[block_idx as int];
                if fits(b, size as int, alignment as int) {
                    &&& r == Some(placed(b, size as int, alignment as int))
                    &&& final(self).free_blocks() == carve(
                        old(self).free_blocks(),
                        block_idx as int,
                        r.unwrap().start,
                        r.unwrap().end,
                    )
                    &&& final(self).used_bytes() == old(self).used_bytes() + size
                } else {
                    &&& r == None::<Block>
                    &&& final(self).free_blocks() == old(self).free_blocks()
                    &&& final(self).used_bytes() == old(self).used_bytes()
                }
            }),
    {
        let block = self.free[block_idx];
        proof {
            lemma_block_below_total(self.free@, self.chunks@, block_idx as int);
        }
        let offset = align(alignment, block.start);
        if offset + size > block.end {
            return None;
        }
        let chunk = block.chunk;
        self.carve_block(block_idx, offset..offset + size);
        Some(Block { chunk, start: offset, end: offset + size })
    }

    /// First-fit allocation of `size` bytes (rounded up to `alignment`)
    /// at an offset aligned to `alignment`.
    pub fn allocate(&mut self, size: u64, alignment: u64) -> (r: Option<Block>)
        requires
            old(self).wf(),
            alignment > 0,
            size > 0,
            old(self).reserved_bytes() + size + 2 * alignment <= u64::MAX,
        ensures
            final(self).wf(),
            final(self).chunk_sizes() == old(self).chunk_sizes(),
            final(self).reserved_bytes() == old(self).reserved_bytes(),
            r is Some <==> some_fit(
                old(self).free_blocks(),
                align_up(alignment as int, size as int),
                alignment as int,
            ),
            r is None ==> final(self).free_blocks() == old(self).free_blocks()
                && final(self).used_bytes() == old(self).used_bytes(),
            r matches Some(b) ==> {
                &&& alloc_outcome(
                    old(self).free_blocks(),
                    align_up(alignment as int, size as int),
                    alignment as int,
                    b,
                    final(self).free_blocks(),
                )
                &&& final(self).used_bytes() == old(self).used_bytes() + align_up(
                    alignment as int,
                    size as int,
                )
            },
    {
        let aligned_size = align(alignment, size);
        let ghost s = self.free@;
        let ghost u = self.used;
        let n = self.free.len();
        let mut i: usize = 0;
        while i < n
            invariant
                self.wf(),
                0 <= i <= n,
                n == s.len(),
                self.free@ == s,
                self.used == u,
                self.chunks@ == old(self).chunk_sizes(),
                self.capacity == old(self).reserved_bytes(),
                s == old(self).free_blocks(),
                u == old(self).used_bytes(),
                alignment > 0,
                aligned_size > 0,
                aligned_size == align_up(alignment as int, size as int),
                self.capacity + alignment + aligned_size <= u64::MAX,
                forall|j: int| 0 <= j < i ==> !#[trigger] fits(s[j], aligned_size as int, alignment as int),
            decreases n - i,
        {
            let r = self.alloc_in(i, aligned_size, alignment);
            if let Some(b) = r {
                proof {
                    assert(is_first_fit(s, aligned_size as int, alignment as int, i as int));
                }
                return Some(b);
            }
            i = i + 1;
        }
        None
    }

    /// Returns `block` to the free list, merging it with the free blocks
    /// it touches.
    pub fn free(&mut self, block: Block)
        requires
            old(self).wf(),
            block_in_chunks(block, old(self).chunk_sizes()),
            free_accepts(old(self).free_blocks(), block),
        ensures
            final(self).wf(),
            final(self).used_bytes() == old(self).used_bytes() - block_len(block),
            final(self).free_blocks() == release(old(self).free_blocks(), block),
            final(self).chunk_sizes() == old(self).chunk_sizes(),
            final(self).reserved_bytes() == old(self).reserved_bytes(),
    {
        let ghost s = self.free@;
        proof {
            lemma_accepts_release_ok(s, self.chunks@, block);
            lemma_release(s, self.chunks@, block);
            lemma_free_within_chunks(release(s, block), self.chunks@);
        }
        let chunk = block.chunk;
        let start = block.start;
        let end = block.end;

        self.used = self.used - (end - start);

        // Find insertion point
        let n = self.free.len();
        let mut idx: usize = 0;
        while idx < n && !(self.free[idx].chunk > chunk || (self.free[idx].chunk == chunk && start
            < self.free[idx].start))
            invariant
                0 <= idx <= n,
                n == s.len(),
                self.free@ == s,
                forall|j: int| 0 <= j < idx ==> !goes_before(#[trigger] s[j], chunk, start),
            decreases n - idx,
        {
            idx = idx + 1;
        }
        proof {
            lemma_insert_pos(s, chunk, start, idx as int);
        }

        // Detect adjacent blocks
        let merge_left = if idx > 0 {
            let left = self.free[idx - 1];
            assert(left.chunk <= chunk);
            assert((left.chunk < chunk) || (left.end <= start));
            (left.chunk == chunk) && (left.end == start)
        } else {
            false
        };
        let merge_right = if idx < n {
            let right = self.free[idx];
            assert(chunk <= right.chunk);
            assert((chunk < right.chunk) || (end <= right.start));
            (right.chunk == chunk) && (end == right.start)
        } else {
            false
        };

        // Perform the insertion
        match (merge_left, merge_right) {
            (false, false) => self.free.insert(idx, Block { chunk, start, end }),
            (true, false) => {
                let left = self.free[idx - 1];
                self.free.set(idx - 1, Block { chunk: left.chunk, start: left.start, end });
            },
            (false, true) => {
                let right = self.free[idx];
                self.free.set(idx, Block { chunk: right.chunk, start, end: right.end });
            },
            (true, true) => {
                let left = self.free[idx - 1];
                let right = self.free[idx];
                self.free.set(idx - 1, Block { chunk: left.chunk, start: left.start, end: right.end });
                self.free.remove(idx);
            },
        }
    }

    /// Makes every chunk one whole free block again.
    pub fn clear(&mut self)
        requires
            old(self).wf(),
        ensures
            final(self).wf(),
            final(self).used_bytes() == 0,
            final(self).free_blocks() == whole_chunks(old(self).chunk_sizes()),
            final(self).chunk_sizes() == old(self).chunk_sizes(),
            final(self).reserved_bytes() == old(self).reserved_bytes(),
    {
        self.free.clear();
        self.used = 0;
        let n = self.chunks.len();
        let mut i: usize = 0;
        while i < n
            invariant
                0 <= i <= n,
                n == self.chunks@.len(),
                n <= u32::MAX + 1,
                self.used == 0,
                self.capacity == old(self).reserved_bytes(),
                self.chunks@ == old(self).chunk_sizes(),
                old(self).wf(),
                self.free@ == whole_chunks(self.chunks@.subrange(0, i as int)),
            decreases n - i,
        {
            let size = self.chunks[i];
            self.free.push(Block { chunk: i as u32, start: 0, end: size });
            proof {
                assert(self.free@ =~= whole_chunks(self.chunks@.subrange(0, i + 1)));
            }
            i = i + 1;
        }
        proof {
            assert(self.chunks@.subrange(0, n as int) =~= self.chunks@);
            lemma_whole_chunks(self.chunks@);
        }
    }
}

// ---------------------------------------------------------------------
// Laws
// ---------------------------------------------------------------------

/// Freeing a block right after it was carved out of block `i` restores
/// the free list exactly.
pub proof fn law_release_undoes_carve(
    s: Seq<Block>,
    chunks: Seq<u64>,
    i: int,
    rs: u64,
    re: u64,
)
    requires
        free_list_wf(s, chunks),
        0 <= i < s.len(),
        s[i].start <= rs < re <= s[i].end,
    ensures
        free_accepts(carve(s, i, rs, re), Block { chunk: s[i].chunk, start: rs, end: re }),
        release(carve(s, i, rs, re), Block { chunk: s[i].chunk, start: rs, end: re }) == s,
{
    let old = s[i];
    let c = old.chunk;
    let b = Block { chunk: c, start: rs, end: re };
    let t = carve(s, i, rs, re);
    let pad = Block { chunk: c, start: old.start, end: rs };
    let tail = Block { chunk: c, start: re, end: old.end };
    let has_pad = rs > old.start;
    let has_tail = re != old.end;
    lemma_carve_shape(s, i, rs, re);
    let ml: int = if has_pad {
        if has_tail {
            2
        } else {
            1
        }
    } else {
        if has_tail {
            1
        } else {
            0
        }
    };
    assert(t.len() == s.len() - 1 + ml);
    assert forall|j: int| 0 <= j < i implies t[j] == s[j] by {}
    assert forall|j: int| i + ml <= j < t.len() implies t[j] == s[j - ml + 1] by {}
    // blocks before position i never take the freed block in front of them
    assert forall|j: int| 0 <= j < i implies !goes_before(#[trigger] t[j], c, rs) by {
        assert(precedes(s[j], old));
        assert(block_in_chunks(s[j], chunks));
    }
    // natural position of the freed block
    let p: int = if has_pad {
        i + 1
    } else {
        i
    };
    if has_pad {
        assert(t[i] == pad);
    }
    if has_tail {
        assert(t[p] == tail);
    }
    assert forall|j: int| 0 <= j < p implies !goes_before(#[trigger] t[j], c, rs) by {
        if j < i {
            assert(t[j] == s[j]);
            assert(precedes(s[j], old));
            assert(block_in_chunks(s[j], chunks));
        }
    }
    if p < t.len() && !has_tail {
        assert(t[p] == s[i + 1]);
        assert(precedes(old, s[i + 1]));
    }
    assert(is_insert_pos(t, c, rs, p));
    lemma_insert_pos(t, c, rs, p);
    lemma_carve(s, chunks, i, rs, re);
    // now the insertion position is p
    let idx = insert_pos(t, c, rs);
    assert(idx == p);
    if has_pad && has_tail {
        assert(release(t, b) =~= s);
    } else if has_pad {
        if p < t.len() {
            assert(t[p] == s[i + 1]);
            assert(precedes(old, s[i + 1]));
        }
        assert(release(t, b) =~= s);
    } else if has_tail {
        if i > 0 {
            assert(t[i - 1] == s[i - 1]);
            assert(precedes(s[i - 1], old));
        }
        assert(release(t, b) =~= s);
    } else {
        if i > 0 {
            assert(t[i - 1] == s[i - 1]);
            assert(precedes(s[i - 1], old));
        }
        if p < t.len() {
            assert(t[p] == s[i + 1]);
            assert(precedes(old, s[i + 1]));
        }
        assert(release(t, b) =~= s);
    }
}

/// A block handed out by first-fit allocation lies inside its chunk, is
/// aligned, overlaps no remaining free block, and freeing it gives back
/// exactly the free list from before.
pub proof fn law_alloc_then_free(
    free: Seq<Block>,
    chunks: Seq<u64>,
    size: int,
    alignment: int,
    b: Block,
    free2: Seq<Block>,
)
    requires
        free_list_wf(free, chunks),
        alignment > 0,
        size > 0,
        alloc_outcome(free, size, alignment, b, free2),
        forall|k: int| 0 <= k < free.len() ==> align_up(alignment, (#[trigger] free[k]).start as int)
            + size <= u64::MAX,
    ensures
        block_in_chunks(b, chunks),
        (b.start as int) % alignment == 0,
        block_len(b) == size,
        free_list_wf(free2, chunks),
        forall|k: int| 0 <= k < free2.len() ==> disjoint(#[trigger] free2[k], b),
        free_accepts(free2, b),
        release(free2, b) == free,
{
    let i = choose|i: int|
        #![trigger is_first_fit(free, size, alignment, i)]
        is_first_fit(free, size, alignment, i) && b == placed(free[i], size, alignment) && free2
            == carve(free, i, b.start, b.end);
    let blk = free[i];
    assert(block_in_chunks(blk, chunks));
    assert(align_up(alignment, blk.start as int) + size <= u64::MAX);
    super::block::lemma_align_up(alignment, blk.start as int);
    lemma_carve(free, chunks, i, b.start, b.end);
    law_release_undoes_carve(free, chunks, i, b.start, b.end);
}

proof fn lemma_covered_concat3(x: Seq<Block>, y: Seq<Block>, z: Seq<Block>, chunk: u32, a: int)
    ensures
        covered(x + y + z, chunk, a) <==> covered(x, chunk, a) || covered(y, chunk, a) || covered(z, chunk, a),
{
    let t = x + y + z;
    if covered(t, chunk, a) {
        let k = choose|k: int| 0 <= k < t.len() && #[trigger] in_block(t[k], chunk, a);
        if k < x.len() {
            assert(in_block(x[k], chunk, a));
        } else if k < x.len() + y.len() {
            assert(in_block(y[k - x.len()], chunk, a));
        } else {
            assert(in_block(z[k - x.len() - y.len()], chunk, a));
        }
    }
    if covered(x, chunk, a) {
        let k = choose|k: int| 0 <= k < x.len() && #[trigger] in_block(x[k], chunk, a);
        assert(in_block(t[k], chunk, a));
    }
    if covered(y, chunk, a) {
        let k = choose|k: int| 0 <= k < y.len() && #[trigger] in_block(y[k], chunk, a);
        assert(in_block(t[x.len() + k], chunk, a));
    }
    if covered(z, chunk, a) {
        let k = choose|k: int| 0 <= k < z.len() && #[trigger] in_block(z[k], chunk, a);
        assert(in_block(t[x.len() + y.len() + k], chunk, a));
    }
}

proof fn lemma_covered_one(x: Block, chunk: u32, a: int)
    ensures
        covered(seq![x], chunk, a) <==> in_block(x, chunk, a),
{
    if in_block(x, chunk, a) {
        assert(in_block(seq![x][0], chunk, a));
    }
}

proof fn lemma_covered_two(x: Block, y: Block, chunk: u32, a: int)
    ensures
        covered(seq![x, y], chunk, a) <==> in_block(x, chunk, a) || in_block(y, chunk, a),
{
    if in_block(x, chunk, a) {
        assert(in_block(seq![x, y][0], chunk, a));
    }
    if in_block(y, chunk, a) {
        assert(in_block(seq![x, y][1], chunk, a));
    }
}

/// Coverage of a splice: the kept parts of `s` and the inserted run.
proof fn lemma_covered_splice(s: Seq<Block>, lo: int, hi: int, mid: Seq<Block>, chunk: u32, a: int)
    requires
        0 <= lo <= hi <= s.len(),
    ensures
        covered(s, chunk, a) <==> covered(s.subrange(0, lo), chunk, a) || covered(s.subrange(lo, hi), chunk, a)
            || covered(s.subrange(hi, s.len() as int), chunk, a),
        covered(splice(s, lo, hi, mid), chunk, a) <==> covered(s.subrange(0, lo), chunk, a) || covered(
            mid,
            chunk,
            a,
        ) || covered(s.subrange(hi, s.len() as int), chunk, a),
{
    assert(s =~= s.subrange(0, lo) + s.subrange(lo, hi) + s.subrange(hi, s.len() as int));
    lemma_covered_concat3(s.subrange(0, lo), s.subrange(lo, hi), s.subrange(hi, s.len() as int), chunk, a);
    lemma_covered_concat3(s.subrange(0, lo), mid, s.subrange(hi, s.len() as int), chunk, a);
}

/// Freeing a block adds exactly its bytes to the free bytes: a byte is
/// free afterwards if and only if it was free before or lies in the
/// block.
pub proof fn law_release_adds_block(s: Seq<Block>, chunks: Seq<u64>, b: Block, chunk: u32, a: int)
    requires
        free_list_wf(s, chunks),
        block_in_chunks(b, chunks),
        free_accepts(s, b),
    ensures
        covered(release(s, b), chunk, a) <==> covered(s, chunk, a) || in_block(b, chunk, a),
{
    lemma_accepts_release_ok(s, chunks, b);
    lemma_insert_pos_exists(s, b.chunk, b.start);
    let idx = insert_pos(s, b.chunk, b.start);
    let n = s.len() as int;
    let ml = idx > 0 && s[idx - 1].chunk == b.chunk && s[idx - 1].end == b.start;
    let mr = idx < n && s[idx].chunk == b.chunk && b.end == s[idx].start;
    if idx > 0 {
        assert(block_in_chunks(s[idx - 1], chunks));
    }
    if idx < n {
        assert(block_in_chunks(s[idx], chunks));
    }
    if !ml && !mr {
        assert(release(s, b) =~= splice(s, idx, idx, seq![b]));
        assert(s.subrange(idx, idx) =~= Seq::<Block>::empty());
        lemma_covered_splice(s, idx, idx, seq![b], chunk, a);
        lemma_covered_one(b, chunk, a);
    } else if ml && !mr {
        let nb = Block { chunk: s[idx - 1].chunk, start: s[idx - 1].start, end: b.end };
        assert(release(s, b) =~= splice(s, idx - 1, idx, seq![nb]));
        assert(s.subrange(idx - 1, idx) =~= seq![s[idx - 1]]);
        lemma_covered_splice(s, idx - 1, idx, seq![nb], chunk, a);
        lemma_covered_one(nb, chunk, a);
        lemma_covered_one(s[idx - 1], chunk, a);
    } else if !ml && mr {
        let nb = Block { chunk: s[idx].chunk, start: b.start, end: s[idx].end };
        assert(release(s, b) =~= splice(s, idx, idx + 1, seq![nb]));
        assert(s.subrange(idx, idx + 1) =~= seq![s[idx]]);
        lemma_covered_splice(s, idx, idx + 1, seq![nb], chunk, a);
        lemma_covered_one(nb, chunk, a);
        lemma_covered_one(s[idx], chunk, a);
    } else {
        let nb = Block { chunk: s[idx - 1].chunk, start: s[idx - 1].start, end: s[idx].end };
        assert(release(s, b) =~= splice(s, idx - 1, idx + 1, seq![nb]));
        assert(s.subrange(idx - 1, idx + 1) =~= seq![s[idx - 1], s[idx]]);
        lemma_covered_splice(s, idx - 1, idx + 1, seq![nb], chunk, a);
        lemma_covered_one(nb, chunk, a);
        lemma_covered_two(s[idx - 1], s[idx], chunk, a);
    }
}

/// No two blocks of a well-formed free list share a byte.
pub proof fn law_free_blocks_disjoint(s: Seq<Block>, chunks: Seq<u64>, i: int, j: int)
    requires
        free_list_wf(s, chunks),
        0 <= i < s.len(),
        0 <= j < s.len(),
        i != j,
    ensures
        disjoint(s[i], s[j]),
{
    assert(block_in_chunks(s[i], chunks));
    assert(block_in_chunks(s[j], chunks));
    if i < j {
        assert(precedes(s[i], s[j]));
    } else {
        assert(precedes(s[j], s[i]));
    }
}

} // verus!
