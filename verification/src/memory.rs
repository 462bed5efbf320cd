use vstd::prelude::*;

use crate::bytes::{byte_of, get_byte, le_value, read_le};
use crate::common::{AccessSize, HEAP_OFFSET, MAX_HEAP_SIZE, MEM_STACK_SIZE, NULL_ADDR};
use crate::error::{SwppErrorKind, SwppRawResult};
use crate::text::{bytes_text, decimal, push_bytes, push_decimal};
use crate::heat::{
    bumped_heat, cooled_heat, excluded, HeatMap, HEAT_COST_DIVISOR, SECTOR_SIZE,
};

verus! {

/// A heap allocation as seen by the specification: its start address and its bytes.
pub type BlockView = (u64, Seq<u8>);

/// `b` with the bytes at `off .. off + size` (those inside `b`) replaced by the
/// little-endian bytes of `val`.
pub open spec fn write_bytes(b: Seq<u8>, off: int, val: u64, size: nat) -> Seq<u8> {
    Seq::new(
        b.len(),
        |j: int|
            if off <= j < off + size {
                byte_of(val, (j - off) as nat)
            } else {
                b[j]
            },
    )
}

pub open spec fn zeros(n: nat) -> Seq<u8> {
    Seq::new(n, |i: int| 0u8)
}

pub open spec fn block_end(b: BlockView) -> int {
    b.0 + b.1.len()
}

/// Allocations lie in order between the heap offset and `top`, without overlapping.
pub open spec fn blocks_wf(bl: Seq<BlockView>, top: u64) -> bool {
    &&& forall|i: int|
        0 <= i < bl.len() ==> HEAP_OFFSET <= (#[trigger] bl[i]).0 && block_end(bl[i]) <= top
    &&& forall|i: int, j: int|
        0 <= i < j < bl.len() ==> block_end(#[trigger] bl[i]) <= (#[trigger] bl[j]).0 && bl[i].0
            < bl[j].0
}

/// The total size of the live allocations.
pub open spec fn sum_lens(bl: Seq<BlockView>) -> int
    decreases bl.len(),
{
    if bl.len() == 0 {
        0
    } else {
        sum_lens(bl.drop_last()) + bl.last().1.len()
    }
}

/// Allocation `i` holds address `addr`.
pub open spec fn holds(bl: Seq<BlockView>, i: int, addr: int) -> bool {
    0 <= i < bl.len() && bl[i].0 <= addr < block_end(bl[i])
}

pub open spec fn heap_has(bl: Seq<BlockView>, addr: int) -> bool {
    exists|i: int| holds(bl, i, addr)
}

/// The allocation that holds `addr` (meaningful when `heap_has(bl, addr)`).
pub open spec fn block_of(bl: Seq<BlockView>, addr: int) -> int {
    choose|i: int| holds(bl, i, addr)
}

/// What reading `size` bytes at `addr` of the heap gives.
pub open spec fn heap_read_result(bl: Seq<BlockView>, addr: u64, size: u64) -> SwppRawResult<u64> {
    if heap_has(bl, addr as int) && addr + size <= block_end(bl[block_of(bl, addr as int)]) {
        let b = bl[block_of(bl, addr as int)];
        Ok(le_value(b.1.subrange(addr - b.0, addr - b.0 + size)) as u64)
    } else {
        Err(SwppErrorKind::InvalidAddr(addr))
    }
}

/// What writing `size` bytes of `val` at `addr` of the heap returns.
pub open spec fn heap_write_result(bl: Seq<BlockView>, addr: u64, size: u64) -> SwppRawResult<()> {
    if heap_has(bl, addr as int) && addr + size <= block_end(bl[block_of(bl, addr as int)]) {
        Ok(())
    } else {
        Err(SwppErrorKind::InvalidAddr(addr))
    }
}

/// The heap after writing `size` bytes of `val` at `addr`; the bytes that fall
/// inside the allocation holding `addr` are written even when the rest do not fit.
pub open spec fn heap_after_write(bl: Seq<BlockView>, addr: u64, val: u64, size: u64) -> Seq<
    BlockView,
> {
    if heap_has(bl, addr as int) {
        let i = block_of(bl, addr as int);
        bl.update(i, (bl[i].0, write_bytes(bl[i].1, addr - bl[i].0, val, size as nat)))
    } else {
        bl
    }
}

/// What reading `size` bytes at `addr` of the stack gives.
pub open spec fn stack_read_result(st: Seq<u8>, addr: u64, size: u64) -> SwppRawResult<u64> {
    if addr + size <= st.len() {
        Ok(le_value(st.subrange(addr as int, addr + size)) as u64)
    } else {
        Err(SwppErrorKind::InvalidAddr(addr))
    }
}

/// What writing `size` bytes at `addr` of the stack returns.
pub open spec fn stack_write_result(st: Seq<u8>, addr: u64, size: u64) -> SwppRawResult<()> {
    if addr + size <= st.len() {
        Ok(())
    } else {
        Err(SwppErrorKind::InvalidAddr(addr))
    }
}

/// The heap after a new allocation at `start`; an empty allocation already
/// at `start` (necessarily the last one) is replaced.
pub open spec fn insert_block(bl: Seq<BlockView>, start: u64, bytes: Seq<u8>) -> Seq<BlockView> {
    if bl.len() > 0 && bl.last().0 == start {
        bl.drop_last().push((start, bytes))
    } else {
        bl.push((start, bytes))
    }
}

pub open spec fn has_start(bl: Seq<BlockView>, addr: u64) -> bool {
    exists|i: int| 0 <= i < bl.len() && (#[trigger] bl[i]).0 == addr
}

pub open spec fn start_index(bl: Seq<BlockView>, addr: u64) -> int {
    choose|i: int| 0 <= i < bl.len() && (#[trigger] bl[i]).0 == addr
}

/// Sectors `lo ..= hi`, in increasing order.
pub open spec fn sector_range(lo: int, hi: int) -> Seq<u64> {
    if lo <= hi {
        Seq::new((hi - lo + 1) as nat, |k: int| (lo + k) as u64)
    } else {
        Seq::empty()
    }
}

pub open spec fn min_int(a: int, b: int) -> int {
    if a <= b {
        a
    } else {
        b
    }
}

pub open spec fn max_int(a: int, b: int) -> int {
    if a >= b {
        a
    } else {
        b
    }
}

/// The sectors heated by an access of `bandwidth` bytes at `addr`: the sector of
/// `addr` and `bandwidth / 2` neighbors on each side (none below sector zero).
pub open spec fn affected_sectors(addr: u64, bandwidth: u64) -> Seq<u64> {
    let direct = addr / SECTOR_SIZE;
    let range = bandwidth / 2;
    sector_range(direct - min_int(direct as int, range as int), direct + range)
}

/// The affected sectors that lie inside the allocation `start .. start + size`.
pub open spec fn affected_heap_sectors(addr: u64, bandwidth: u64, start: u64, size: u64) -> Seq<
    u64,
> {
    let direct = addr / SECTOR_SIZE;
    let range = bandwidth / 2;
    sector_range(
        max_int(direct - min_int(direct as int, range as int), (start / SECTOR_SIZE) as int),
        min_int(direct + range, (start + size - 1) / SECTOR_SIZE as int),
    )
}

proof fn lemma_sum_lens_push(bl: Seq<BlockView>, b: BlockView)
    ensures
        sum_lens(bl.push(b)) == sum_lens(bl) + b.1.len(),
{
    assert(bl.push(b).drop_last() =~= bl);
}

proof fn lemma_sum_lens_remove(bl: Seq<BlockView>, k: int)
    requires
        0 <= k < bl.len(),
    ensures
        sum_lens(bl.remove(k)) == sum_lens(bl) - bl[k].1.len(),
    decreases bl.len(),
{
    if k == bl.len() - 1 {
        assert(bl.remove(k) =~= bl.drop_last());
    } else {
        lemma_sum_lens_remove(bl.drop_last(), k);
        assert(bl.remove(k).drop_last() =~= bl.drop_last().remove(k));
        assert(bl.remove(k).last() == bl.last());
    }
}

proof fn lemma_sum_lens_nonneg(bl: Seq<BlockView>)
    ensures
        sum_lens(bl) >= 0,
    decreases bl.len(),
{
    if bl.len() > 0 {
        lemma_sum_lens_nonneg(bl.drop_last());
    }
}

proof fn lemma_holds_unique(bl: Seq<BlockView>, top: u64, i: int, j: int, addr: int)
    requires
        blocks_wf(bl, top),
        holds(bl, i, addr),
        holds(bl, j, addr),
    ensures
        i == j,
{
    if i < j {
        assert(block_end(bl[i]) <= bl[j].0);
    }
    if j < i {
        assert(block_end(bl[j]) <= bl[i].0);
    }
}

proof fn lemma_holds_block_of(bl: Seq<BlockView>, top: u64, i: int, addr: int)
    requires
        blocks_wf(bl, top),
        holds(bl, i, addr),
    ensures
        heap_has(bl, addr),
        block_of(bl, addr) == i,
{
    lemma_holds_unique(bl, top, i, block_of(bl, addr), addr);
}

/// Writes the first `n` little-endian bytes of `val` at `idx`, stopping at the end
/// of `bytes`; returns whether all of them fit.
fn write_le(bytes: &mut Vec<u8>, idx: usize, val: u64, n: usize) -> (res: bool)
    requires
        1 <= n <= 8,
    ensures
        final(bytes)@ == write_bytes(old(bytes)@, idx as int, val, n as nat),
        res == (idx + n <= old(bytes)@.len()),
{
    let ghost orig = bytes@;
    let len = bytes.len();
    let fits = idx < len && len - idx >= n;
    let m: usize = if fits {
        n
    } else if idx >= len {
        0
    } else {
        len - idx
    };
    let mut i: usize = 0;
    while i < m
        invariant
            i <= m <= n <= 8,
            len == orig.len(),
            m > 0 ==> idx + m <= orig.len(),
            bytes@.len() == orig.len(),
            bytes@ == write_bytes(orig, idx as int, val, i as nat),
        decreases m - i,
    {
        let b = get_byte(val, i);
        bytes.set(idx + i, b);
        i = i + 1;
        assert(bytes@ =~= write_bytes(orig, idx as int, val, i as nat));
    }
    assert(bytes@ =~= write_bytes(orig, idx as int, val, n as nat));
    fits
}

/// One allocation as text: its start address, a colon, and its bytes.
pub open spec fn block_text(b: BlockView) -> Seq<char> {
    decimal(b.0 as nat) + ": "@ + bytes_text(b.1)
}

/// The allocations as text, separated by ", ".
pub open spec fn join_blocks(bl: Seq<BlockView>) -> Seq<char>
    decreases bl.len(),
{
    if bl.len() == 0 {
        Seq::empty()
    } else if bl.len() == 1 {
        block_text(bl[0])
    } else {
        join_blocks(bl.drop_last()) + ", "@ + block_text(bl.last())
    }
}

/// The heap as text: the allocations by address, between braces.
pub open spec fn heap_text(bl: Seq<BlockView>) -> Seq<char> {
    "{"@ + join_blocks(bl) + "}"@
}

struct HeapBlock {
    start: u64,
    bytes: Vec<u8>,
}

/// A bump allocator: allocations are handed out at increasing addresses and never reused.
///
/// The live blocks are kept in a vector in address order: finding the block
/// that holds an address is a search by range, which vstd specifies for no
/// ordered map.
struct SwppSimpleHeap {
    memory: Vec<HeapBlock>,
    top_addr: u64,
    max_size: u64,
    cur_size: u64,
}

impl SwppSimpleHeap {
    spec fn blocks(self) -> Seq<BlockView> {
        self.memory@.map_values(|b: HeapBlock| (b.start, b.bytes@))
    }

    spec fn wf(self) -> bool {
        &&& blocks_wf(self.blocks(), self.top_addr)
        &&& HEAP_OFFSET <= self.top_addr <= MAX_HEAP_SIZE
        &&& self.cur_size == sum_lens(self.blocks())
        &&& self.cur_size <= self.top_addr - HEAP_OFFSET
    }

    fn new() -> (res: Self)
        ensures
            res.wf(),
            res.blocks() == Seq::<BlockView>::empty(),
            res.top_addr == HEAP_OFFSET,
            res.max_size == 0,
            res.cur_size == 0,
    {
        let res = Self { memory: Vec::new(), top_addr: HEAP_OFFSET, max_size: 0, cur_size: 0 };
        assert(res.blocks() =~= Seq::<BlockView>::empty());
        res
    }

    fn print_heap_memory(&self) -> (res: String)
        ensures
            res@ == heap_text(self.blocks()),
    {
        proof {
            reveal_strlit("{");
            reveal_strlit("}");
            reveal_strlit(": ");
            reveal_strlit(", ");
        }
        let mut out = String::new();
        out.append("{");
        let mut i: usize = 0;
        while i < self.memory.len()
            invariant
                i <= self.memory@.len(),
                out@ == "{"@ + join_blocks(self.blocks().subrange(0, i as int)),
            decreases self.memory@.len() - i,
        {
            if i > 0 {
                out.append(", ");
            }
            push_decimal(&mut out, self.memory[i].start);
            out.append(": ");
            push_bytes(&mut out, self.memory[i].bytes.as_slice());
            proof {
                let prefix = self.blocks().subrange(0, i + 1);
                assert(prefix.drop_last() =~= self.blocks().subrange(0, i as int));
                assert(prefix.last() == self.blocks()[i as int]);
                if i == 0 {
                    assert(join_blocks(self.blocks().subrange(0, 0)) =~= Seq::<char>::empty());
                }
            }
            i = i + 1;
        }
        proof {
            assert(self.blocks().subrange(0, self.memory@.len() as int) =~= self.blocks());
        }
        out.append("}");
        out
    }

    /// The last allocation that starts at or below `addr`.
    fn last_at_or_below(&self, addr: u64) -> (res: Option<usize>)
        requires
            self.wf(),
        ensures
            match res {
                Some(k) => {
                    &&& k < self.memory@.len()
                    &&& self.memory@[k as int].start <= addr
                    &&& k + 1 < self.memory@.len() ==> self.memory@[k + 1].start > addr
                },
                None => self.memory@.len() == 0 || self.memory@[0].start > addr,
            },
    {
        let ghost bl = self.blocks();
        let mut lo: usize = 0;
        let mut hi: usize = self.memory.len();
        while lo < hi
            invariant
                self.wf(),
                bl == self.blocks(),
                lo <= hi <= self.memory@.len(),
                forall|j: int| 0 <= j < lo ==> self.memory@[j].start <= addr,
                forall|j: int| hi <= j < self.memory@.len() ==> self.memory@[j].start > addr,
            decreases hi - lo,
        {
            let mid = lo + (hi - lo) / 2;
            if self.memory[mid].start <= addr {
                proof {
                    assert forall|j: int| 0 <= j < mid + 1 implies self.memory@[j].start
                        <= addr by {
                        if j < mid {
                            assert(bl[j].0 < bl[mid as int].0);
                        }
                    }
                }
                lo = mid + 1;
            } else {
                proof {
                    assert forall|j: int| mid <= j < self.memory@.len() implies self.memory@[j].start
                        > addr by {
                        if j > mid {
                            assert(bl[mid as int].0 < bl[j].0);
                        }
                    }
                }
                hi = mid;
            }
        }
        if lo == 0 {
            None
        } else {
            Some(lo - 1)
        }
    }

    /// The allocation holding `addr`, if any.
    fn find_holder(&self, addr: u64) -> (res: Option<usize>)
        requires
            self.wf(),
        ensures
            match res {
                Some(k) => heap_has(self.blocks(), addr as int) && k == block_of(
                    self.blocks(),
                    addr as int,
                ),
                None => !heap_has(self.blocks(), addr as int),
            },
    {
        let ghost bl = self.blocks();
        match self.last_at_or_below(addr) {
            None => {
                proof {
                    assert forall|i: int| !holds(bl, i, addr as int) by {
                        if 0 <= i < bl.len() && i > 0 {
                            assert(bl[0].0 < bl[i].0);
                        }
                    }
                }
                None
            },
            Some(k) => {
                let b = &self.memory[k];
                if addr - b.start < b.bytes.len() as u64 {
                    proof {
                        assert(holds(bl, k as int, addr as int));
                        lemma_holds_block_of(bl, self.top_addr, k as int, addr as int);
                    }
                    Some(k)
                } else {
                    proof {
                        assert forall|i: int| !holds(bl, i, addr as int) by {
                            if 0 <= i < bl.len() {
                                if i < k {
                                    assert(block_end(bl[i]) <= bl[k as int].0);
                                } else if i > k {
                                    if i > k + 1 {
                                        assert(bl[k + 1].0 < bl[i].0);
                                    }
                                }
                            }
                        }
                    }
                    None
                }
            },
        }
    }

    fn read(&self, addr: u64, size: AccessSize) -> (res: SwppRawResult<u64>)
        requires
            self.wf(),
        ensures
            res == heap_read_result(self.blocks(), addr, size.spec_bytes()),
    {
        let n = size.bytes();
        match self.find_holder(addr) {
            None => Err(SwppErrorKind::InvalidAddr(addr)),
            Some(k) => {
                let b = &self.memory[k];
                let idx = addr - b.start;
                if idx + n > b.bytes.len() as u64 {
                    Err(SwppErrorKind::InvalidAddr(addr))
                } else {
                    let v = read_le(&b.bytes, idx as usize, n as usize);
                    proof {
                        crate::bytes::lemma_le_value_bound(
                            b.bytes@.subrange(idx as int, idx + n),
                        );
                    }
                    Ok(v)
                }
            },
        }
    }

    fn write(&mut self, addr: u64, val: u64, size: AccessSize) -> (res: SwppRawResult<()>)
        requires
            old(self).wf(),
        ensures
            final(self).wf(),
            res == heap_write_result(old(self).blocks(), addr, size.spec_bytes()),
            final(self).blocks() == heap_after_write(
                old(self).blocks(),
                addr,
                val,
                size.spec_bytes(),
            ),
            final(self).top_addr == old(self).top_addr,
            final(self).cur_size == old(self).cur_size,
            final(self).max_size == old(self).max_size,
    {
        let n = size.bytes();
        let ghost bl = self.blocks();
        match self.find_holder(addr) {
            None => Err(SwppErrorKind::InvalidAddr(addr)),
            Some(k) => {
                let idx = addr - self.memory[k].start;
                let ghost start = self.memory@[k as int].start;
                let ghost old_bytes = self.memory@[k as int].bytes@;
                let blen = self.memory[k].bytes.len();
                assert(idx < blen);
                let idx_u = idx as usize;
                let ok = write_le(&mut self.memory[k].bytes, idx_u, val, n as usize);
                proof {
                    assert(self.memory@[k as int].start == start);
                    assert(self.memory@[k as int].bytes@ == write_bytes(
                        old_bytes,
                        idx as int,
                        val,
                        n as nat,
                    ));
                    assert(self.blocks() =~= heap_after_write(bl, addr, val, n));
                    assert forall|i: int| 0 <= i < bl.len() implies (#[trigger] bl[i]).1.len()
                        == self.blocks()[i].1.len() && bl[i].0 == self.blocks()[i].0 by {}
                    lemma_sum_lens_same(bl, self.blocks());
                }
                if ok {
                    Ok(())
                } else {
                    Err(SwppErrorKind::InvalidAddr(addr))
                }
            },
        }
    }

    fn malloc(&mut self, size: u64) -> (res: SwppRawResult<u64>)
        requires
            old(self).wf(),
        ensures
            final(self).wf(),
            if size + old(self).top_addr > MAX_HEAP_SIZE || size > usize::MAX {
                &&& res == Err::<u64, SwppErrorKind>(SwppErrorKind::NOMEMHEAP)
                &&& *final(self) == *old(self)
            } else {
                &&& res == Ok::<u64, SwppErrorKind>(old(self).top_addr)
                &&& final(self).blocks() == insert_block(
                    old(self).blocks(),
                    old(self).top_addr,
                    zeros(size as nat),
                )
                &&& final(self).top_addr == old(self).top_addr + size
                &&& final(self).cur_size == old(self).cur_size + size
                &&& final(self).max_size == if old(self).cur_size + size > old(self).max_size {
                    (old(self).cur_size + size) as u64
                } else {
                    old(self).max_size
                }
            },
    {
        if size > MAX_HEAP_SIZE - self.top_addr || size > usize::MAX as u64 {
            return Err(SwppErrorKind::NOMEMHEAP);
        }
        let ghost bl = self.blocks();
        let top = self.top_addr;
        let mut bytes: Vec<u8> = Vec::new();
        let mut i: u64 = 0;
        while i < size
            invariant
                i <= size <= usize::MAX,
                bytes@ == zeros(i as nat),
            decreases size - i,
        {
            bytes.push(0u8);
            i = i + 1;
            assert(bytes@ =~= zeros(i as nat));
        }
        let block = HeapBlock { start: top, bytes };
        let n = self.memory.len();
        if n > 0 && self.memory[n - 1].start == top {
            proof {
                assert(bl[n - 1].1.len() == 0) by {
                    assert(block_end(bl[n - 1]) <= top);
                }
                lemma_sum_lens_push(bl.drop_last(), (top, zeros(size as nat)));
            }
            self.memory.set(n - 1, block);
            proof {
                assert(self.blocks() =~= bl.drop_last().push((top, zeros(size as nat))));
            }
        } else {
            proof {
                lemma_sum_lens_push(bl, (top, zeros(size as nat)));
            }
            self.memory.push(block);
            proof {
                assert(self.blocks() =~= bl.push((top, zeros(size as nat))));
            }
        }
        self.top_addr = top + size;
        self.cur_size = self.cur_size + size;
        if self.cur_size > self.max_size {
            self.max_size = self.cur_size;
        }
        proof {
            let nb = self.blocks();
            assert(nb =~= insert_block(bl, top, zeros(size as nat)));
            assert forall|i: int, j: int| 0 <= i < j < nb.len() implies block_end(#[trigger] nb[i])
                <= (#[trigger] nb[j]).0 && nb[i].0 < nb[j].0 by {
                if j == nb.len() - 1 {
                    assert(block_end(bl[i]) <= top);
                    if n > 0 && bl[n - 1].0 == top {
                        assert(bl[i].0 < bl[n - 1].0);
                    }
                } else {
                    assert(nb[i] == bl[i] && nb[j] == bl[j]);
                }
            }
        }
        Ok(top)
    }

    fn free(&mut self, addr: u64) -> (res: SwppRawResult<()>)
        requires
            old(self).wf(),
        ensures
            final(self).wf(),
            final(self).top_addr == old(self).top_addr,
            final(self).max_size == old(self).max_size,
            if has_start(old(self).blocks(), addr) {
                let k = start_index(old(self).blocks(), addr);
                &&& res == Ok::<(), SwppErrorKind>(())
                &&& final(self).blocks() == old(self).blocks().remove(k)
                &&& final(self).cur_size == old(self).cur_size - old(self).blocks()[k].1.len()
            } else {
                &&& res == Err::<(), SwppErrorKind>(SwppErrorKind::InvalidAddr(addr))
                &&& *final(self) == *old(self)
            },
    {
        let ghost bl = self.blocks();
        match self.find_start(addr) {
            None => Err(SwppErrorKind::InvalidAddr(addr)),
            Some(k) => {
                let block = self.memory.remove(k);
                proof {
                    assert(self.blocks() =~= bl.remove(k as int));
                    lemma_sum_lens_remove(bl, k as int);
                    lemma_sum_lens_nonneg(self.blocks());
                    assert forall|i: int, j: int|
                        0 <= i < j < self.blocks().len() implies block_end(
                        #[trigger] self.blocks()[i],
                    ) <= (#[trigger] self.blocks()[j]).0 && self.blocks()[i].0
                        < self.blocks()[j].0 by {
                        let ii = if i < k { i } else { i + 1 };
                        let jj = if j < k { j } else { j + 1 };
                        assert(self.blocks()[i] == bl[ii] && self.blocks()[j] == bl[jj]);
                    }
                }
                self.cur_size = self.cur_size - block.bytes.len() as u64;
                Ok(())
            },
        }
    }

    /// The index of the allocation that starts exactly at `addr`.
    fn find_start(&self, addr: u64) -> (res: Option<usize>)
        requires
            self.wf(),
        ensures
            match res {
                Some(k) => has_start(self.blocks(), addr) && k == start_index(self.blocks(), addr),
                None => !has_start(self.blocks(), addr),
            },
    {
        let ghost bl = self.blocks();
        match self.last_at_or_below(addr) {
            Some(k) => {
                if self.memory[k].start == addr {
                    proof {
                        assert(bl[k as int].0 == addr);
                        let j = start_index(bl, addr);
                        if j != k {
                            if j < k {
                                assert(bl[j].0 < bl[k as int].0);
                            } else {
                                assert(bl[k as int].0 < bl[j].0);
                            }
                        }
                    }
                    Some(k)
                } else {
                    proof {
                        assert forall|i: int| 0 <= i < bl.len() implies (#[trigger] bl[i]).0
                            != addr by {
                            if i < k {
                                assert(bl[i].0 < bl[k as int].0);
                            } else if i > k + 1 {
                                assert(bl[k + 1].0 < bl[i].0);
                            }
                        }
                    }
                    None
                }
            },
            None => {
                proof {
                    assert forall|i: int| 0 <= i < bl.len() implies (#[trigger] bl[i]).0 != addr by {
                        if i > 0 {
                            assert(bl[0].0 < bl[i].0);
                        }
                    }
                }
                None
            },
        }
    }

    fn get_allocation_size(&self, addr: u64) -> (res: Option<u64>)
        requires
            self.wf(),
        ensures
            res == if has_start(self.blocks(), addr) {
                Some(self.blocks()[start_index(self.blocks(), addr)].1.len() as u64)
            } else {
                None::<u64>
            },
    {
        match self.find_start(addr) {
            Some(k) => Some(self.memory[k].bytes.len() as u64),
            None => None,
        }
    }

    fn get_allocation_bounds(&self, addr: u64) -> (res: Option<(u64, u64)>)
        requires
            self.wf(),
        ensures
            res == if heap_has(self.blocks(), addr as int) {
                let b = self.blocks()[block_of(self.blocks(), addr as int)];
                Some((b.0, b.1.len() as u64))
            } else {
                None::<(u64, u64)>
            },
    {
        match self.find_holder(addr) {
            Some(k) => Some((self.memory[k].start, self.memory[k].bytes.len() as u64)),
            None => None,
        }
    }
}

proof fn lemma_sum_lens_same(a: Seq<BlockView>, b: Seq<BlockView>)
    requires
        a.len() == b.len(),
        forall|i: int| 0 <= i < a.len() ==> (#[trigger] a[i]).1.len() == b[i].1.len(),
    ensures
        sum_lens(a) == sum_lens(b),
    decreases a.len(),
{
    if a.len() > 0 {
        lemma_sum_lens_same(a.drop_last(), b.drop_last());
    }
}

/// Builds the sectors `lo ..= hi` in increasing order.
fn sector_range_vec(lo: u64, hi: u64) -> (res: Vec<u64>)
    requires
        hi < u64::MAX,
    ensures
        res@ == sector_range(lo as int, hi as int),
{
    let mut out: Vec<u64> = Vec::new();
    if lo > hi {
        assert(out@ =~= sector_range(lo as int, hi as int));
        return out;
    }
    let mut s = lo;
    while s <= hi
        invariant
            lo <= s <= hi + 1,
            hi < u64::MAX,
            out@ =~= sector_range(lo as int, s - 1),
        decreases hi - s + 1,
    {
        out.push(s);
        s = s + 1;
        assert(out@ =~= sector_range(lo as int, s - 1));
    }
    out
}

/// Memory of the machine: a stack, a heap, and the heat of heap sectors.
pub struct SwppMemory {
    stack: Vec<u8>,
    heap: SwppSimpleHeap,
    /// Heat tracking for heap sectors (sector index -> heat)
    heap_heat: HeatMap,
}

/// Zero bytes read as the number 0.
pub proof fn lemma_le_value_zeros(n: nat)
    ensures
        le_value(zeros(n)) == 0,
    decreases n,
{
    if n > 0 {
        assert(zeros(n).drop_first() =~= zeros((n - 1) as nat));
        lemma_le_value_zeros((n - 1) as nat);
    }
}

impl SwppMemory {
    pub closed spec fn wf(self) -> bool {
        &&& self.stack@.len() == MEM_STACK_SIZE
        &&& self.heap.wf()
        &&& self.heap_heat.wf()
    }

    /// The bytes of the stack.
    pub closed spec fn stack(self) -> Seq<u8> {
        self.stack@
    }

    /// The live heap allocations, by increasing address.
    pub closed spec fn heap_blocks(self) -> Seq<BlockView> {
        self.heap.blocks()
    }

    /// The address where the next allocation starts.
    pub closed spec fn heap_top(self) -> u64 {
        self.heap.top_addr
    }

    /// The total size of the live heap allocations.
    pub closed spec fn heap_cur_size(self) -> u64 {
        self.heap.cur_size
    }

    /// The largest total size the live heap allocations ever reached.
    pub closed spec fn max_heap_size(self) -> u64 {
        self.heap.max_size
    }

    /// The heat of heap sector `s`.
    pub closed spec fn heat(self, s: u64) -> u64 {
        self.heap_heat.heat(s)
    }

    /// The heap bookkeeping and contents are those of `other`.
    pub open spec fn same_heap(self, other: SwppMemory) -> bool {
        &&& self.heap_blocks() == other.heap_blocks()
        &&& self.heap_top() == other.heap_top()
        &&& self.heap_cur_size() == other.heap_cur_size()
        &&& self.max_heap_size() == other.max_heap_size()
    }

    /// Every heap sector has the heat it has in `other`.
    pub open spec fn same_heat(self, other: SwppMemory) -> bool {
        forall|s: u64| #[trigger] self.heat(s) == other.heat(s)
    }

    pub proof fn lemma_wf(self)
        requires
            self.wf(),
        ensures
            self.stack().len() == MEM_STACK_SIZE,
            blocks_wf(self.heap_blocks(), self.heap_top()),
            HEAP_OFFSET <= self.heap_top() <= MAX_HEAP_SIZE,
            self.heap_cur_size() == sum_lens(self.heap_blocks()),
            forall|s: u64| #[trigger] self.heat(s) <= crate::heat::HEAT_CAP_PER_SECTOR,
    {
        assert forall|s: u64| #[trigger] self.heat(s) <= crate::heat::HEAT_CAP_PER_SECTOR by {
            self.heap_heat.lemma_heat_bound(s);
        }
    }

    /// The stack bytes and the heap allocations, as text.
    pub fn print_memory(&self) -> (res: String)
        requires
            self.wf(),
        ensures
            res@ == "Stack : "@ + bytes_text(self.stack()) + "\nHeap:"@ + heap_text(
                self.heap_blocks(),
            ),
    {
        let mut out = String::new();
        out.append("Stack : ");
        push_bytes(&mut out, self.stack.as_slice());
        out.append("\nHeap:");
        let heap = self.heap.print_heap_memory();
        out.append(heap.as_str());
        out
    }

    pub fn get_heap_top(&self) -> (res: u64)
        ensures
            res == self.heap_top(),
    {
        self.heap.top_addr
    }

    pub fn get_max_heap_size(&self) -> (res: u64)
        ensures
            res == self.max_heap_size(),
    {
        self.heap.max_size
    }

    pub fn new() -> (res: Self)
        ensures
            res.wf(),
            res.stack() == zeros(MEM_STACK_SIZE as nat),
            res.heap_blocks() == Seq::<BlockView>::empty(),
            res.heap_top() == HEAP_OFFSET,
            res.heap_cur_size() == 0,
            res.max_heap_size() == 0,
            forall|s: u64| #[trigger] res.heat(s) == 0,
    {
        let mut stack: Vec<u8> = Vec::new();
        let mut i: u64 = 0;
        while i < MEM_STACK_SIZE
            invariant
                i <= MEM_STACK_SIZE,
                stack@ == zeros(i as nat),
            decreases MEM_STACK_SIZE - i,
        {
            stack.push(0u8);
            i = i + 1;
            assert(stack@ =~= zeros(i as nat));
        }
        Self { stack, heap: SwppSimpleHeap::new(), heap_heat: HeatMap::new() }
    }

    pub fn malloc(&mut self, size: u64) -> (res: SwppRawResult<u64>)
        requires
            old(self).wf(),
        ensures
            final(self).wf(),
            final(self).stack() == old(self).stack(),
            final(self).same_heat(*old(self)),
            if size + old(self).heap_top() > MAX_HEAP_SIZE || size > usize::MAX {
                &&& res == Err::<u64, SwppErrorKind>(SwppErrorKind::NOMEMHEAP)
                &&& final(self).same_heap(*old(self))
            } else {
                &&& res == Ok::<u64, SwppErrorKind>(old(self).heap_top())
                &&& final(self).heap_blocks() == insert_block(
                    old(self).heap_blocks(),
                    old(self).heap_top(),
                    zeros(size as nat),
                )
                &&& final(self).heap_top() == old(self).heap_top() + size
                &&& final(self).heap_cur_size() == old(self).heap_cur_size() + size
                &&& final(self).max_heap_size() == if old(self).heap_cur_size() + size
                    > old(self).max_heap_size() {
                    (old(self).heap_cur_size() + size) as u64
                } else {
                    old(self).max_heap_size()
                }
            },
    {
        self.heap.malloc(size)
    }

    /// A fresh allocation reads as zero: on the heap that `malloc` of `size`
    /// bytes leaves behind, a read of `n` bytes at an address of the new block
    /// that ends inside it gives 0.
    pub proof fn lemma_malloc_block_reads_zero(self, size: u64, addr: u64, n: u64)
        requires
            self.wf(),
            self.heap_top() <= addr < self.heap_top() + size,
            addr + n <= self.heap_top() + size,
        ensures
            heap_read_result(
                insert_block(self.heap_blocks(), self.heap_top(), zeros(size as nat)),
                addr,
                n,
            ) == Ok::<u64, SwppErrorKind>(0),
    {
        let bl = self.heap_blocks();
        let top = self.heap_top();
        let nb = insert_block(bl, top, zeros(size as nat));
        let last = nb.len() - 1;
        assert(nb[last] == (top, zeros(size as nat)));
        assert(holds(nb, last, addr as int));
        assert forall|i: int| holds(nb, i, addr as int) implies i == last by {
            if i != last {
                assert(nb[i] == bl[i]);
                assert(block_end(bl[i]) <= top);
            }
        }
        let b = nb[block_of(nb, addr as int)];
        assert(b == (top, zeros(size as nat)));
        let part = b.1.subrange(addr - top, addr - top + n);
        assert(part =~= zeros(n as nat));
        lemma_le_value_zeros(n as nat);
    }

    pub fn free(&mut self, addr: u64) -> (res: SwppRawResult<()>)
        requires
            old(self).wf(),
        ensures
            final(self).wf(),
            final(self).stack() == old(self).stack(),
            final(self).heap_top() == old(self).heap_top(),
            final(self).max_heap_size() == old(self).max_heap_size(),
            if addr == NULL_ADDR {
                &&& res == Ok::<(), SwppErrorKind>(())
                &&& final(self).same_heap(*old(self))
                &&& final(self).same_heat(*old(self))
            } else if addr < HEAP_OFFSET || !has_start(old(self).heap_blocks(), addr) {
                &&& res == Err::<(), SwppErrorKind>(SwppErrorKind::InvalidAddr(addr))
                &&& final(self).same_heap(*old(self))
                &&& final(self).same_heat(*old(self))
            } else {
                let k = start_index(old(self).heap_blocks(), addr);
                let len = old(self).heap_blocks()[k].1.len();
                &&& res == Ok::<(), SwppErrorKind>(())
                &&& final(self).heap_blocks() == old(self).heap_blocks().remove(k)
                &&& final(self).heap_cur_size() == old(self).heap_cur_size() - len
                &&& forall|t: u64| #[trigger]
                    final(self).heat(t) == if addr / SECTOR_SIZE <= t < (addr + len + SECTOR_SIZE
                        - 1) / SECTOR_SIZE as int {
                        0
                    } else {
                        old(self).heat(t)
                    }
            },
    {
        if addr == NULL_ADDR {
            return Ok(());
        }
        if addr < HEAP_OFFSET {
            proof {
                assert forall|i: int| 0 <= i < self.heap.blocks().len() implies (
                #[trigger] self.heap.blocks()[i]).0 != addr by {}
            }
            return Err(SwppErrorKind::InvalidAddr(addr));
        }
        // Forget the heat of all sectors of the freed allocation
        if let Some(alloc_size) = self.heap.get_allocation_size(addr) {
            proof {
                let bl = self.heap.blocks();
                let k = start_index(bl, addr);
                assert(block_end(bl[k]) <= self.heap.top_addr);
            }
            let start_sector = addr / SECTOR_SIZE;
            let end_sector = (addr + alloc_size + SECTOR_SIZE - 1) / SECTOR_SIZE;
            self.heap_heat.clear_range(start_sector, end_sector);
        }
        self.heap.free(addr)
    }

    pub fn read_from_stack(&self, addr: u64, size: AccessSize) -> (res: SwppRawResult<u64>)
        requires
            self.wf(),
        ensures
            res == stack_read_result(self.stack(), addr, size.spec_bytes()),
    {
        let n = size.bytes();
        if addr >= MEM_STACK_SIZE || MEM_STACK_SIZE - addr < n {
            return Err(SwppErrorKind::InvalidAddr(addr));
        }
        let v = read_le(&self.stack, addr as usize, n as usize);
        proof {
            crate::bytes::lemma_le_value_bound(self.stack@.subrange(addr as int, addr + n));
        }
        Ok(v)
    }

    pub fn write_to_stack(&mut self, addr: u64, val: u64, size: AccessSize) -> (res:
        SwppRawResult<()>)
        requires
            old(self).wf(),
        ensures
            final(self).wf(),
            res == stack_write_result(old(self).stack(), addr, size.spec_bytes()),
            final(self).stack() == write_bytes(
                old(self).stack(),
                addr as int,
                val,
                size.spec_bytes() as nat,
            ),
            final(self).same_heap(*old(self)),
            final(self).same_heat(*old(self)),
    {
        let n = size.bytes();
        if addr >= MEM_STACK_SIZE {
            assert(self.stack@ =~= write_bytes(self.stack@, addr as int, val, n as nat));
            return Err(SwppErrorKind::InvalidAddr(addr));
        }
        let ok = write_le(&mut self.stack, addr as usize, val, n as usize);
        if ok {
            Ok(())
        } else {
            Err(SwppErrorKind::InvalidAddr(addr))
        }
    }

    pub fn read_from_heap(&self, addr: u64, size: AccessSize) -> (res: SwppRawResult<u64>)
        requires
            self.wf(),
        ensures
            res == heap_read_result(self.heap_blocks(), addr, size.spec_bytes()),
    {
        self.heap.read(addr, size)
    }

    pub fn write_to_heap(&mut self, addr: u64, val: u64, size: AccessSize) -> (res:
        SwppRawResult<()>)
        requires
            old(self).wf(),
        ensures
            final(self).wf(),
            res == heap_write_result(old(self).heap_blocks(), addr, size.spec_bytes()),
            final(self).heap_blocks() == heap_after_write(
                old(self).heap_blocks(),
                addr,
                val,
                size.spec_bytes(),
            ),
            final(self).stack() == old(self).stack(),
            final(self).heap_top() == old(self).heap_top(),
            final(self).heap_cur_size() == old(self).heap_cur_size(),
            final(self).max_heap_size() == old(self).max_heap_size(),
            final(self).same_heat(*old(self)),
    {
        self.heap.write(addr, val, size)
    }

    /// Sectors heated by an access of `bandwidth` bytes at `addr`, in increasing order.
    fn get_affected_sectors(addr: u64, bandwidth: u64) -> (res: Vec<u64>)
        requires
            bandwidth <= 8,
        ensures
            res@ == affected_sectors(addr, bandwidth),
    {
        let direct_sector = addr / SECTOR_SIZE;
        let range = bandwidth / 2;
        let lo = if direct_sector >= range {
            direct_sector - range
        } else {
            0
        };
        sector_range_vec(lo, direct_sector + range)
    }

    /// The affected sectors that lie inside the allocation holding the access.
    fn get_affected_heap_sectors(
        addr: u64,
        bandwidth: u64,
        allocation_start: u64,
        allocation_size: u64,
    ) -> (res: Vec<u64>)
        requires
            bandwidth <= 8,
            allocation_size >= 1,
            allocation_start + allocation_size <= u64::MAX,
        ensures
            res@ == affected_heap_sectors(addr, bandwidth, allocation_start, allocation_size),
    {
        let min_sector = allocation_start / SECTOR_SIZE;
        let max_sector = (allocation_start + allocation_size - 1) / SECTOR_SIZE;
        let direct_sector = addr / SECTOR_SIZE;
        let range = bandwidth / 2;
        let lo = if direct_sector >= range {
            direct_sector - range
        } else {
            0
        };
        let hi = direct_sector + range;
        let lo = if lo >= min_sector {
            lo
        } else {
            min_sector
        };
        let hi = if hi <= max_sector {
            hi
        } else {
            max_sector
        };
        sector_range_vec(lo, hi)
    }

    /// Heats the affected sectors and returns the extra cost of the directly
    /// accessed sector, from its heat before this access.
    fn apply_heat_and_cost(heat_map: &mut HeatMap, cost_sector: u64, affected_sectors: &[u64]) -> (res:
        u64)
        requires
            old(heat_map).wf(),
            affected_sectors@.no_duplicates(),
        ensures
            final(heat_map).wf(),
            res == old(heat_map).heat(cost_sector) / HEAT_COST_DIVISOR,
            forall|t: u64| #[trigger]
                final(heat_map).heat(t) == if affected_sectors@.contains(t) {
                    bumped_heat(old(heat_map).heat(t))
                } else {
                    old(heat_map).heat(t)
                },
    {
        let extra_cost = heat_map.get(cost_sector) / HEAT_COST_DIVISOR;
        let ghost orig = *heat_map;
        let mut i: usize = 0;
        while i < affected_sectors.len()
            invariant
                heat_map.wf(),
                i <= affected_sectors@.len(),
                affected_sectors@.no_duplicates(),
                forall|t: u64| #[trigger]
                    heat_map.heat(t) == if affected_sectors@.subrange(0, i as int).contains(t) {
                        bumped_heat(orig.heat(t))
                    } else {
                        orig.heat(t)
                    },
            decreases affected_sectors@.len() - i,
        {
            let s = affected_sectors[i];
            proof {
                let p = affected_sectors@.subrange(0, i as int);
                let q = affected_sectors@.subrange(0, i + 1);
                assert forall|t: u64| #[trigger] q.contains(t) == (p.contains(t) || t == s) by {
                    if q.contains(t) {
                        let j = choose|j: int| 0 <= j < q.len() && q[j] == t;
                        if j < i {
                            assert(p[j] == t);
                        }
                    }
                    if p.contains(t) {
                        let j = choose|j: int| 0 <= j < p.len() && p[j] == t;
                        assert(q[j] == t);
                    }
                    if t == s {
                        assert(q[i as int] == t);
                    }
                }
                assert(!p.contains(s)) by {
                    if p.contains(s) {
                        let j = choose|j: int| 0 <= j < p.len() && p[j] == s;
                        assert(affected_sectors@[j] == affected_sectors@[i as int]);
                    }
                }
            }
            heat_map.bump(s);
            i = i + 1;
        }
        assert(affected_sectors@.subrange(0, affected_sectors@.len() as int) =~= affected_sectors@);
        extra_cost
    }

    /// Stack accesses do not take part in the heat model.
    pub fn cost_stack(&mut self, _addr: u64, _size: AccessSize) -> (res: (u64, Vec<u64>))
        requires
            old(self).wf(),
        ensures
            *final(self) == *old(self),
            res.0 == 0,
            res.1@ == Seq::<u64>::empty(),
    {
        (0, Vec::new())
    }

    /// Cost of accessing the heap at `addr`: returns the extra cost from the heat of the
    /// accessed sector and the sectors heated by the access, and heats them.
    pub fn cost_heap(&mut self, addr: u64, size: AccessSize) -> (res: (u64, Vec<u64>))
        requires
            old(self).wf(),
            heap_has(old(self).heap_blocks(), addr as int),
        ensures
            final(self).wf(),
            final(self).stack() == old(self).stack(),
            final(self).same_heap(*old(self)),
            ({
                let b = old(self).heap_blocks()[block_of(old(self).heap_blocks(), addr as int)];
                res.1@ == affected_heap_sectors(addr, size.spec_bytes(), b.0, b.1.len() as u64)
            }),
            res.0 == old(self).heat(addr / SECTOR_SIZE) / HEAT_COST_DIVISOR,
            forall|t: u64| #[trigger]
                final(self).heat(t) == if res.1@.contains(t) {
                    bumped_heat(old(self).heat(t))
                } else {
                    old(self).heat(t)
                },
    {
        let bandwidth = size.bytes();
        let bounds = self.heap.get_allocation_bounds(addr);
        let (allocation_start, allocation_size) = bounds.unwrap();
        proof {
            let bl = self.heap.blocks();
            let k = block_of(bl, addr as int);
            assert(holds(bl, k, addr as int));
            assert(block_end(bl[k]) <= self.heap.top_addr);
        }
        let affected_sectors = Self::get_affected_heap_sectors(
            addr,
            bandwidth,
            allocation_start,
            allocation_size,
        );
        proof {
            lemma_sector_range_distinct(
                max_int(
                    addr / SECTOR_SIZE - min_int((addr / SECTOR_SIZE) as int, (bandwidth / 2) as int),
                    (allocation_start / SECTOR_SIZE) as int,
                ),
                min_int(
                    addr / SECTOR_SIZE + bandwidth / 2,
                    (allocation_start + allocation_size - 1) / SECTOR_SIZE as int,
                ),
            );
        }
        let cost_sector = addr / SECTOR_SIZE;
        let extra_cost = Self::apply_heat_and_cost(
            &mut self.heap_heat,
            cost_sector,
            affected_sectors.as_slice(),
        );
        (extra_cost, affected_sectors)
    }

    /// Lets `instruction_cost` elapse: every heap sector not excluded cools by it.
    pub fn cool_down(&mut self, instruction_cost: u64, exclude_sectors: Option<&[u64]>)
        requires
            old(self).wf(),
        ensures
            final(self).wf(),
            final(self).stack() == old(self).stack(),
            final(self).same_heap(*old(self)),
            forall|t: u64| #[trigger]
                final(self).heat(t) == if excluded(exclude_sectors, t) {
                    old(self).heat(t)
                } else {
                    cooled_heat(old(self).heat(t), instruction_cost)
                },
    {
        self.heap_heat.cool(instruction_cost, exclude_sectors);
    }
}

proof fn lemma_sector_range_distinct(lo: int, hi: int)
    requires
        0 <= lo,
        hi <= u64::MAX,
    ensures
        sector_range(lo, hi).no_duplicates(),
{
    let r = sector_range(lo, hi);
    assert forall|i: int, j: int| 0 <= i < r.len() && 0 <= j < r.len() && i != j implies r[i]
        != r[j] by {}
}

proof fn lemma_written_window(b: Seq<u8>, off: int, val: u64, n: nat)
    requires
        0 <= off,
        off + n <= b.len(),
    ensures
        write_bytes(b, off, val, n).subrange(off, off + n) == crate::bytes::le_bytes(val, n),
{
    assert(write_bytes(b, off, val, n).subrange(off, off + n) =~= crate::bytes::le_bytes(val, n));
}

/// Reading the stack right after a successful write at the same address and size
/// gives the value written, truncated to the access size.
pub proof fn lemma_stack_read_after_write(st: Seq<u8>, addr: u64, val: u64, size: AccessSize)
    requires
        stack_write_result(st, addr, size.spec_bytes()) is Ok,
    ensures
        stack_read_result(
            write_bytes(st, addr as int, val, size.spec_bytes() as nat),
            addr,
            size.spec_bytes(),
        ) == Ok::<u64, SwppErrorKind>(
            (val as int % crate::common::pow2(8 * size.spec_bytes() as nat) as int) as u64,
        ),
{
    let n = size.spec_bytes() as nat;
    lemma_written_window(st, addr as int, val, n);
    crate::bytes::lemma_le_roundtrip(val, n);
}

/// A write to the stack leaves every read of other bytes as it was.
pub proof fn lemma_stack_write_elsewhere(
    st: Seq<u8>,
    addr: u64,
    val: u64,
    size: AccessSize,
    raddr: u64,
    rsize: AccessSize,
)
    requires
        raddr + rsize.spec_bytes() <= addr || addr + size.spec_bytes() <= raddr,
    ensures
        stack_read_result(
            write_bytes(st, addr as int, val, size.spec_bytes() as nat),
            raddr,
            rsize.spec_bytes(),
        ) == stack_read_result(st, raddr, rsize.spec_bytes()),
{
    let w = write_bytes(st, addr as int, val, size.spec_bytes() as nat);
    if raddr + rsize.spec_bytes() <= st.len() {
        assert(w.subrange(raddr as int, raddr + rsize.spec_bytes()) =~= st.subrange(
            raddr as int,
            raddr + rsize.spec_bytes(),
        ));
    }
}

/// Reading the heap right after a successful write at the same address and size
/// gives the value written, truncated to the access size.
pub proof fn lemma_heap_read_after_write(
    bl: Seq<BlockView>,
    top: u64,
    addr: u64,
    val: u64,
    size: AccessSize,
)
    requires
        blocks_wf(bl, top),
        heap_write_result(bl, addr, size.spec_bytes()) is Ok,
    ensures
        heap_read_result(heap_after_write(bl, addr, val, size.spec_bytes()), addr, size.spec_bytes())
            == Ok::<u64, SwppErrorKind>(
            (val as int % crate::common::pow2(8 * size.spec_bytes() as nat) as int) as u64,
        ),
{
    let n = size.spec_bytes();
    let i = block_of(bl, addr as int);
    let nb = heap_after_write(bl, addr, val, n);
    assert(holds(nb, i, addr as int));
    lemma_heap_after_write_wf(bl, top, addr, val, n);
    lemma_holds_block_of(nb, top, i, addr as int);
    lemma_written_window(bl[i].1, addr - bl[i].0, val, n as nat);
    crate::bytes::lemma_le_roundtrip(val, n as nat);
}

proof fn lemma_heap_after_write_wf(bl: Seq<BlockView>, top: u64, addr: u64, val: u64, n: u64)
    requires
        blocks_wf(bl, top),
    ensures
        blocks_wf(heap_after_write(bl, addr, val, n), top),
        heap_after_write(bl, addr, val, n).len() == bl.len(),
        forall|j: int|
            0 <= j < bl.len() ==> (#[trigger] heap_after_write(bl, addr, val, n)[j]).0 == bl[j].0
                && heap_after_write(bl, addr, val, n)[j].1.len() == bl[j].1.len(),
{
    let nb = heap_after_write(bl, addr, val, n);
    assert forall|j: int| 0 <= j < bl.len() implies (#[trigger] nb[j]).0 == bl[j].0 && nb[j].1.len()
        == bl[j].1.len() by {}
    assert forall|i: int, j: int| 0 <= i < j < nb.len() implies block_end(#[trigger] nb[i]) <= (
    #[trigger] nb[j]).0 && nb[i].0 < nb[j].0 by {
        assert(block_end(bl[i]) <= bl[j].0);
    }
}

/// A write to the heap leaves every read of other bytes as it was.
pub proof fn lemma_heap_write_elsewhere(
    bl: Seq<BlockView>,
    top: u64,
    addr: u64,
    val: u64,
    size: AccessSize,
    raddr: u64,
    rsize: AccessSize,
)
    requires
        blocks_wf(bl, top),
        raddr + rsize.spec_bytes() <= addr || addr + size.spec_bytes() <= raddr,
    ensures
        heap_read_result(heap_after_write(bl, addr, val, size.spec_bytes()), raddr, rsize.spec_bytes())
            == heap_read_result(bl, raddr, rsize.spec_bytes()),
{
    let n = size.spec_bytes();
    let nb = heap_after_write(bl, addr, val, n);
    lemma_heap_after_write_wf(bl, top, addr, val, n);
    if heap_has(bl, raddr as int) {
        let j = block_of(bl, raddr as int);
        assert(holds(nb, j, raddr as int));
        lemma_holds_block_of(nb, top, j, raddr as int);
        if raddr + rsize.spec_bytes() <= block_end(bl[j]) {
            if heap_has(bl, addr as int) && block_of(bl, addr as int) == j {
                assert(nb[j].1.subrange(raddr - bl[j].0, raddr - bl[j].0 + rsize.spec_bytes())
                    =~= bl[j].1.subrange(raddr - bl[j].0, raddr - bl[j].0 + rsize.spec_bytes()));
            } else {
                assert(nb[j] == bl[j]);
            }
        }
    } else {
        if heap_has(nb, raddr as int) {
            let j = block_of(nb, raddr as int);
            assert(holds(bl, j, raddr as int));
        }
    }
}

} // verus!
