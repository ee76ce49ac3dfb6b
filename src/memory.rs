//! Physical memory: regions and a first-fit bitmap allocator whose bitmap
//! lives in the first blocks of the extent it describes.
use vstd::prelude::*;
use vstd::arithmetic::div_mod::lemma_fundamental_div_mod;
use vstd::arithmetic::mul::{lemma_mul_inequality, lemma_mul_is_distributive_add_other_way};
use crate::multiboot::{MemoryArea, MemoryAreaType};
use crate::bits::{is_pow2, round_up, round_down, align_up, align_down, lemma_pow2_positive, lemma_round_facts};

verus! {

/// Number of extents a `PhysicalAllocator` can manage.
pub const MAX_PHYS_REGIONS: usize = 16;

/// A span of physical memory: a start address and a size in bytes.
#[derive(Clone, Copy, Debug, PartialEq, Eq, Structural)]
pub struct PhysRegion {
    pub start_address: u64,
    pub size: usize,
}

impl PhysRegion {
    pub fn new(start_address: u64, size: usize) -> (r: PhysRegion)
        ensures
            r.start_address == start_address,
            r.size == size,
    {
        PhysRegion { start_address, size }
    }

    pub fn start_address(&self) -> (r: u64)
        ensures
            r == self.start_address,
    {
        self.start_address
    }

    /// The first address past the region.
    pub fn end_address(&self) -> (r: u64)
        requires
            self.start_address + self.size <= u64::MAX,
        ensures
            r == self.start_address + self.size,
    {
        self.start_address + self.size as u64
    }

    pub fn size(&self) -> (r: usize)
        ensures
            r == self.size,
    {
        self.size
    }

    pub open spec fn spec_intersects(&self, other: &PhysRegion) -> bool {
        !(self.start_address + self.size <= other.start_address || self.start_address
            >= other.start_address + other.size)
    }

    /// Tells whether the two regions share an address.
    pub fn intersects(&self, other: &PhysRegion) -> (r: bool)
        requires
            self.start_address + self.size <= u64::MAX,
            other.start_address + other.size <= u64::MAX,
        ensures
            r == self.spec_intersects(other),
    {
        let self_end_address = self.start_address + self.size as u64;
        let other_end_address = other.start_address + other.size as u64;
        !(self_end_address <= other.start_address || self.start_address >= other_end_address)
    }
}

/// Number of blocks not in use among `bits`.
pub open spec fn free_count(bits: Seq<bool>) -> nat
    decreases bits.len(),
{
    if bits.len() == 0 {
        0
    } else {
        free_count(bits.drop_last()) + if bits.last() {
            0nat
        } else {
            1nat
        }
    }
}

/// Blocks `[s, s + n)` all lie in `bits` and are all free.
pub open spec fn run_free(bits: Seq<bool>, s: int, n: int) -> bool {
    &&& 0 <= s
    &&& s + n <= bits.len()
    &&& forall|i: int| s <= i < s + n ==> !bits[i]
}

/// Blocks `[s, s + n)` all lie in `bits` and are all in use.
pub open spec fn run_held(bits: Seq<bool>, s: int, n: int) -> bool {
    &&& 0 <= s
    &&& s + n <= bits.len()
    &&& forall|i: int| s <= i < s + n ==> bits[i]
}

/// `bits` with blocks `[s, s + n)` set to `v`.
pub open spec fn set_run(bits: Seq<bool>, s: int, n: int, v: bool) -> Seq<bool> {
    Seq::new(bits.len(), |i: int| if s <= i < s + n { v } else { bits[i] })
}

/// Number of blocks of `block_size` bytes needed to hold `size` bytes.
pub open spec fn blocks_for(size: int, block_size: int) -> int {
    if size % block_size == 0 {
        size / block_size
    } else {
        size / block_size + 1
    }
}

/// Number of blocks that a bitmap of one bit per block over `total` blocks
/// takes up in blocks of `block_size` bytes.
pub open spec fn bitmap_blocks(total: int, block_size: int) -> int {
    blocks_for(blocks_for(total, 8), block_size)
}

proof fn lemma_free_count_update(bits: Seq<bool>, i: int, v: bool)
    requires
        0 <= i < bits.len(),
    ensures
        free_count(bits.update(i, v)) + (if bits[i] { 0int } else { 1int }) == free_count(bits) + (
        if v { 0int } else { 1int }),
    decreases bits.len(),
{
    let u = bits.update(i, v);
    if i == bits.len() - 1 {
        assert(u.drop_last() =~= bits.drop_last());
    } else {
        assert(u.drop_last() =~= bits.drop_last().update(i, v));
        lemma_free_count_update(bits.drop_last(), i, v);
    }
}

proof fn lemma_free_count_bound(bits: Seq<bool>)
    ensures
        free_count(bits) <= bits.len(),
    decreases bits.len(),
{
    if bits.len() > 0 {
        lemma_free_count_bound(bits.drop_last());
    }
}

proof fn lemma_free_count_prefix_held(bits: Seq<bool>, reserved: int)
    requires
        0 <= reserved <= bits.len(),
        forall|i: int| 0 <= i < reserved ==> bits[i],
        forall|i: int| reserved <= i < bits.len() ==> !bits[i],
    ensures
        free_count(bits) == bits.len() - reserved,
    decreases bits.len(),
{
    if bits.len() > 0 {
        if reserved == bits.len() {
            lemma_free_count_prefix_held(bits.drop_last(), reserved - 1);
        } else {
            lemma_free_count_prefix_held(bits.drop_last(), reserved);
        }
    }
}

/// Setting a free run of `n` blocks takes `n` from the free count; clearing a
/// held run adds `n`.
proof fn lemma_free_count_set_run(bits: Seq<bool>, s: int, n: int, v: bool)
    requires
        0 <= n,
        v ==> run_free(bits, s, n),
        !v ==> run_held(bits, s, n),
    ensures
        v ==> free_count(set_run(bits, s, n, v)) + n == free_count(bits),
        !v ==> free_count(set_run(bits, s, n, v)) == free_count(bits) + n,
    decreases n,
{
    if n == 0 {
        assert(set_run(bits, s, n, v) =~= bits);
    } else {
        let prev = set_run(bits, s, n - 1, v);
        lemma_free_count_set_run(bits, s, n - 1, v);
        assert(set_run(bits, s, n, v) =~= prev.update(s + n - 1, v));
        lemma_free_count_update(prev, s + n - 1, v);
    }
}

proof fn lemma_sub_multiples(a: int, b: int, d: int)
    requires
        a % d == 0,
        b % d == 0,
        0 < d,
    ensures
        (a - b) % d == 0,
{
    lemma_fundamental_div_mod(a, d);
    lemma_fundamental_div_mod(b, d);
    vstd::arithmetic::mul::lemma_mul_is_distributive_sub(d, a / d, b / d);
    vstd::arithmetic::div_mod::lemma_mod_multiples_basic(a / d - b / d, d);
    vstd::arithmetic::mul::lemma_mul_is_commutative(d, a / d - b / d);
}

/// `ceil(x / k)` is at most `x`.
proof fn lemma_blocks_for_le(x: int, k: int)
    requires
        0 <= x,
        1 <= k,
    ensures
        0 <= blocks_for(x, k) <= x,
        x > 0 ==> blocks_for(x, k) > 0,
        blocks_for(x, k) * k >= x,
{
    lemma_fundamental_div_mod(x, k);
    let q = x / k;
    let r = x % k;
    assert(0 <= r < k) by {
        vstd::arithmetic::div_mod::lemma_mod_pos_bound(x, k);
    }
    assert(0 <= q <= x && (r != 0 ==> q + 1 <= x) && (x > 0 && r == 0 ==> q > 0) && (r == 0
        ==> q * k >= x) && (r != 0 ==> (q + 1) * k >= x)) by (nonlinear_arith)
        requires
            x == k * q + r,
            0 <= r < k,
            1 <= k,
            0 <= x,
    ;
}

/// One extent of physical memory, cut into blocks of `block_size` bytes and
/// tracked by one bit per block. The first `reserved` blocks hold the bitmap
/// itself and are never handed out.
#[derive(Debug)]
pub struct PhysicalMemoryBitmap {
    start_addr: u64,
    size: usize,
    block_size: usize,
    blocks_remaining: usize,
    reserved: usize,
    bitmap: Vec<bool>,
}

impl PhysicalMemoryBitmap {
    /// First address of the extent.
    pub closed spec fn spec_start(&self) -> int {
        self.start_addr as int
    }

    /// Size of the extent in bytes.
    pub closed spec fn spec_size(&self) -> int {
        self.size as int
    }

    pub closed spec fn spec_block_size(&self) -> int {
        self.block_size as int
    }

    /// Number of blocks at the start of the extent that the bitmap occupies.
    pub closed spec fn spec_reserved(&self) -> int {
        self.reserved as int
    }

    /// Number of free blocks.
    pub closed spec fn spec_remaining(&self) -> int {
        self.blocks_remaining as int
    }

    /// One entry per block: `true` where the block is in use.
    pub closed spec fn bits(&self) -> Seq<bool> {
        self.bitmap@
    }

    pub closed spec fn wf(&self) -> bool {
        &&& is_pow2(self.block_size as int)
        &&& self.start_addr as int % self.block_size as int == 0
        &&& self.bitmap@.len() * self.block_size == self.size
        &&& self.start_addr + self.size <= u64::MAX
        &&& self.reserved <= self.bitmap@.len()
        &&& forall|i: int| 0 <= i < self.reserved ==> self.bitmap@[i]
        &&& self.blocks_remaining == free_count(self.bitmap@)
    }

    /// Everything but the bitmap and the free count is as in `other`.
    pub open spec fn same_extent(&self, other: &PhysicalMemoryBitmap) -> bool {
        &&& self.spec_start() == other.spec_start()
        &&& self.spec_size() == other.spec_size()
        &&& self.spec_block_size() == other.spec_block_size()
        &&& self.spec_reserved() == other.spec_reserved()
        &&& self.bits().len() == other.bits().len()
    }

    /// Takes the extent `[start_addr, start_addr + size)`, shrunk inward to
    /// whole blocks of `block_size` bytes, and reserves the blocks its own
    /// bitmap needs at its start. The extent must hold at least the boundary
    /// of one block.
    pub fn new(start_addr: u64, size: usize, block_size: usize) -> (r: PhysicalMemoryBitmap)
        requires
            is_pow2(block_size as int),
            start_addr + size <= u64::MAX,
            round_up(start_addr as int, block_size as int) <= round_down(
                start_addr + size,
                block_size as int,
            ),
        ensures
            r.wf(),
            r.spec_start() == round_up(start_addr as int, block_size as int),
            r.spec_size() == round_down(start_addr + size, block_size as int) - round_up(
                start_addr as int,
                block_size as int,
            ),
            r.spec_block_size() == block_size,
            r.bits().len() * block_size == r.spec_size(),
            r.spec_reserved() == bitmap_blocks(r.bits().len() as int, block_size as int),
            r.bits() == Seq::new(r.bits().len(), |i: int| i < r.spec_reserved()),
            r.spec_remaining() == r.bits().len() - r.spec_reserved(),
    {
        proof {
            lemma_pow2_positive(block_size as int);
            lemma_round_facts(start_addr as int, block_size as int);
            lemma_round_facts(start_addr + size, block_size as int);
        }
        let bs = block_size as u64;
        let start_aligned = align_up(start_addr, bs);
        let end_aligned = align_down(start_addr + size as u64, bs);
        let aligned_size = (end_aligned - start_aligned) as usize;
        let total = aligned_size / block_size;
        proof {
            let d = block_size as int;
            lemma_sub_multiples(end_aligned as int, start_aligned as int, d);
            lemma_fundamental_div_mod(aligned_size as int, d);
            vstd::arithmetic::mul::lemma_mul_is_commutative(d, total as int);
        }
        let bitmap_bytes = total / 8 + if total % 8 == 0 {
            0
        } else {
            1
        };
        let reserved = bitmap_bytes / block_size + if bitmap_bytes % block_size == 0 {
            0
        } else {
            1
        };
        proof {
            lemma_blocks_for_le(total as int, 8);
            lemma_blocks_for_le(bitmap_bytes as int, block_size as int);
        }
        let mut bitmap: Vec<bool> = Vec::new();
        let mut i: usize = 0;
        while i < total
            invariant
                i <= total,
                bitmap@.len() == i,
                forall|j: int| 0 <= j < i ==> bitmap@[j] == (j < reserved),
            decreases total - i,
        {
            bitmap.push(i < reserved);
            i = i + 1;
        }
        proof {
            assert(bitmap@ =~= Seq::new(bitmap@.len(), |j: int| j < reserved));
            lemma_free_count_prefix_held(bitmap@, reserved as int);
        }
        PhysicalMemoryBitmap {
            start_addr: start_aligned,
            size: aligned_size,
            block_size,
            blocks_remaining: total - reserved,
            reserved,
            bitmap,
        }
    }
}

/// Blocks `[s, s + n)` are the lowest run of `n` free blocks in `bits`.
pub open spec fn is_first_fit(bits: Seq<bool>, s: int, n: int) -> bool {
    &&& run_free(bits, s, n)
    &&& forall|t: int| 0 <= t < s ==> !run_free(bits, t, n)
}

/// `bits` holds a run of `n > 0` free blocks.
pub open spec fn has_free_run(bits: Seq<bool>, n: int) -> bool {
    n > 0 && exists|s: int| run_free(bits, s, n)
}

proof fn lemma_run_free_count(bits: Seq<bool>, s: int, n: int)
    requires
        0 <= n,
        run_free(bits, s, n),
    ensures
        free_count(bits) >= n,
{
    lemma_free_count_set_run(bits, s, n, true);
}

impl PhysicalMemoryBitmap {
    /// Free bytes: the free blocks times the block size.
    pub open spec fn spec_bytes_remaining(&self) -> int {
        self.spec_remaining() * self.spec_block_size()
    }

    proof fn lemma_wf_bounds(&self)
        requires
            self.wf(),
        ensures
            self.spec_block_size() > 0,
            self.spec_remaining() <= self.bits().len(),
            self.spec_bytes_remaining() <= self.spec_size(),
            self.spec_size() <= usize::MAX,
            self.spec_start() + self.spec_size() <= u64::MAX,
            self.spec_remaining() == free_count(self.bits()),
    {
        lemma_pow2_positive(self.block_size as int);
        lemma_free_count_bound(self.bitmap@);
        lemma_mul_inequality(
            self.blocks_remaining as int,
            self.bitmap@.len() as int,
            self.block_size as int,
        );
    }

    pub fn bytes_remaining(&self) -> (r: usize)
        requires
            self.wf(),
        ensures
            r == self.spec_bytes_remaining(),
    {
        proof {
            self.lemma_wf_bounds();
        }
        self.blocks_remaining * self.block_size
    }

    /// Number of blocks needed to hold `size` bytes.
    pub fn bytes_to_blocks(&self, size: usize) -> (r: usize)
        requires
            self.wf(),
        ensures
            r == blocks_for(size as int, self.spec_block_size()),
    {
        proof {
            self.lemma_wf_bounds();
            lemma_blocks_for_le(size as int, self.block_size as int);
        }
        size / self.block_size + if size % self.block_size == 0 {
            0
        } else {
            1
        }
    }

    /// Number of blocks in the extent, the reserved ones included.
    pub fn total_blocks(&self) -> (r: usize)
        requires
            self.wf(),
        ensures
            r == self.bits().len(),
    {
        self.bitmap.len()
    }

    /// What allocating `n` blocks from `self` leaves: where a run of `n`
    /// free blocks exists, the lowest such run is marked in use in `after`
    /// and `r` spans it; where none exists, `r` is `None` and nothing changes.
    pub open spec fn alloc_outcome(
        &self,
        n: int,
        r: Option<PhysRegion>,
        after: &PhysicalMemoryBitmap,
    ) -> bool {
        &&& after.same_extent(self)
        &&& (r is None <==> !has_free_run(self.bits(), n))
        &&& r is None ==> *after == *self
        &&& r matches Some(reg) ==> {
            let s = (reg.start_address - self.spec_start()) / self.spec_block_size();
            &&& is_first_fit(self.bits(), s, n)
            &&& reg.start_address == self.spec_start() + s * self.spec_block_size()
            &&& reg.size == n * self.spec_block_size()
            &&& after.bits() == set_run(self.bits(), s, n, true)
            &&& after.spec_remaining() == self.spec_remaining() - n
        }
    }

    /// Marks the lowest run of `blocks` free blocks in use and returns the
    /// region it spans; `None` where no such run exists.
    pub fn allocate(&mut self, blocks: usize) -> (r: Option<PhysRegion>)
        requires
            old(self).wf(),
        ensures
            final(self).wf(),
            old(self).alloc_outcome(blocks as int, r, final(self)),
    {
        proof {
            self.lemma_wf_bounds();
        }
        if blocks == 0 {
            return None;
        }
        let ghost bits0 = self.bitmap@;
        let mut consecutive_blocks: usize = 0;
        let mut start_block: usize = self.reserved;
        let mut i: usize = self.reserved;
        let end = self.bitmap.len();
        assert forall|t: int| 0 <= t < i - consecutive_blocks implies !run_free(
            bits0,
            t,
            blocks as int,
        ) by {
            assert(bits0[t]);
        }
        while i < end
            invariant
                *self == *old(self),
                self.block_size > 0,
                self.wf(),
                bits0 == self.bitmap@,
                self.reserved <= i <= end,
                end == bits0.len(),
                0 < blocks,
                consecutive_blocks < blocks,
                consecutive_blocks <= i,
                consecutive_blocks > 0 ==> start_block == i - consecutive_blocks,
                run_free(bits0, i - consecutive_blocks, consecutive_blocks as int),
                forall|t: int| 0 <= t < i - consecutive_blocks ==> !run_free(bits0, t, blocks as int),
            decreases end - i,
        {
            if !self.bitmap[i] {
                if consecutive_blocks == 0 {
                    start_block = i;
                }
                consecutive_blocks = consecutive_blocks + 1;
                if consecutive_blocks == blocks {
                    let s = start_block;
                    assert(is_first_fit(bits0, s as int, blocks as int));
                    proof {
                        lemma_run_free_count(bits0, s as int, blocks as int);
                    }
                    assert(s + blocks <= end);
                    let stop = s + blocks;
                    let mut j: usize = s;
                    while j < stop
                        invariant
                            stop == s + blocks,
                            self.block_size > 0,
                            s <= j <= s + blocks,
                            s + blocks <= bits0.len(),
                            self.bitmap@ == set_run(bits0, s as int, j - s, true),
                            self.start_addr == old(self).start_addr,
                            self.size == old(self).size,
                            self.block_size == old(self).block_size,
                            self.reserved == old(self).reserved,
                            self.blocks_remaining == old(self).blocks_remaining,
                        decreases stop - j,
                    {
                        self.bitmap.set(j, true);
                        assert(self.bitmap@ =~= set_run(bits0, s as int, j + 1 - s, true));
                        j = j + 1;
                    }
                    proof {
                        lemma_free_count_set_run(bits0, s as int, blocks as int, true);
                    }
                    self.blocks_remaining = self.blocks_remaining - blocks;
                    proof {
                        lemma_mul_inequality(s + blocks, bits0.len() as int, self.block_size as int);
                        lemma_mul_is_distributive_add_other_way(self.block_size as int, s as int, blocks as int);
                        lemma_div_multiple(s as int, self.block_size as int);
                    }
                    let offset = (s * self.block_size) as u64;
                    let reg = PhysRegion {
                        start_address: self.start_addr + offset,
                        size: blocks * self.block_size,
                    };
                    return Some(reg);
                }
            } else {
                consecutive_blocks = 0;
            }
            i = i + 1;
        }
        proof {
            assert forall|t: int| !run_free(bits0, t, blocks as int) by {
                if 0 <= t && t >= end - consecutive_blocks {
                }
            }
        }
        None
    }
}

/// Why a region could not be given back.
#[derive(Clone, Copy, Debug, PartialEq, Eq, Structural)]
pub enum DeallocError {
    /// The region reaches into the reserved prefix that holds an extent's
    /// bitmap, and no extent owns it.
    Reserved,
}

impl PhysicalMemoryBitmap {
    /// Index of the block that holds the first byte of `frame`.
    pub open spec fn first_block(&self, frame: PhysRegion) -> int {
        (frame.start_address - self.spec_start()) / self.spec_block_size()
    }

    /// Number of blocks `frame` covers.
    pub open spec fn frame_blocks(&self, frame: PhysRegion) -> int {
        blocks_for(frame.size as int, self.spec_block_size())
    }

    /// The blocks of `frame` all lie in the extent.
    pub open spec fn spec_contains_frame(&self, frame: PhysRegion) -> bool {
        &&& frame.start_address >= self.spec_start()
        &&& self.first_block(frame) < self.bits().len()
        &&& self.first_block(frame) + self.frame_blocks(frame) <= self.bits().len()
    }

    /// The blocks of `frame` all lie in the extent, past its reserved prefix.
    pub open spec fn owns(&self, frame: PhysRegion) -> bool {
        &&& self.spec_contains_frame(frame)
        &&& self.first_block(frame) >= self.spec_reserved()
    }

    pub fn contains_frame(&self, frame: &PhysRegion) -> (r: bool)
        requires
            self.wf(),
        ensures
            r == self.spec_contains_frame(*frame),
    {
        proof {
            self.lemma_wf_bounds();
        }
        if frame.start_address < self.start_addr {
            return false;
        }
        let start_block = (frame.start_address - self.start_addr) / (self.block_size as u64);
        let total = self.bitmap.len();
        if start_block >= total as u64 {
            return false;
        }
        let blocks = self.bytes_to_blocks(frame.size);
        blocks <= total - start_block as usize
    }

    /// The extent owns `frame`.
    pub fn owns_frame(&self, frame: &PhysRegion) -> (r: bool)
        requires
            self.wf(),
        ensures
            r == self.owns(*frame),
    {
        if !self.contains_frame(frame) {
            return false;
        }
        proof {
            self.lemma_wf_bounds();
        }
        let start_block = (frame.start_address - self.start_addr) / (self.block_size as u64);
        start_block >= self.reserved as u64
    }

    /// Whether every block of `frame`, which the extent owns, is in use.
    pub fn blocks_held(&self, frame: &PhysRegion) -> (r: bool)
        requires
            self.wf(),
            self.owns(*frame),
        ensures
            r == run_held(self.bits(), self.first_block(*frame), self.frame_blocks(*frame)),
    {
        proof {
            self.lemma_wf_bounds();
        }
        let start_block64 = (frame.start_address - self.start_addr) / (self.block_size as u64);
        let total = self.bitmap.len();
        assert(start_block64 == self.first_block(*frame));
        assert(start_block64 < total);
        let start_block = start_block64 as usize;
        let blocks = self.bytes_to_blocks(frame.size);
        assert(start_block + blocks <= total);
        let end_block = start_block + blocks;
        let mut k: usize = start_block;
        while k < end_block
            invariant
                start_block <= k <= end_block <= self.bitmap@.len(),
                start_block == self.first_block(*frame),
                blocks == self.frame_blocks(*frame),
                end_block == start_block + blocks,
                forall|i: int| start_block <= i < k ==> self.bitmap@[i],
            decreases end_block - k,
        {
            if !self.bitmap[k] {
                return false;
            }
            k = k + 1;
        }
        true
    }

    /// What giving `frame` back to `self` leaves: where the extent owns it,
    /// its blocks cleared and counted free; otherwise `false` and nothing
    /// changed.
    pub open spec fn dealloc_outcome(
        &self,
        frame: PhysRegion,
        r: bool,
        after: &PhysicalMemoryBitmap,
    ) -> bool {
        let s = self.first_block(frame);
        let n = self.frame_blocks(frame);
        &&& after.same_extent(self)
        &&& r == self.owns(frame)
        &&& !r ==> *after == *self
        &&& r ==> after.bits() == set_run(self.bits(), s, n, false) && after.spec_remaining()
            == self.spec_remaining() + n
    }

    /// Gives `frame` back where the extent owns it, and says whether it
    /// did. The blocks of a region the extent owns must all be in use:
    /// giving back a block twice is a fault of the caller.
    pub fn try_deallocate(&mut self, frame: PhysRegion) -> (r: bool)
        requires
            old(self).wf(),
            old(self).owns(frame) ==> run_held(
                old(self).bits(),
                old(self).first_block(frame),
                old(self).frame_blocks(frame),
            ),
        ensures
            final(self).wf(),
            old(self).dealloc_outcome(frame, r, final(self)),
    {
        proof {
            self.lemma_wf_bounds();
        }
        if !self.owns_frame(&frame) {
            return false;
        }
        let start_block64 = (frame.start_address - self.start_addr) / (self.block_size as u64);
        let total = self.bitmap.len();
        assert(start_block64 == self.first_block(frame));
        assert(start_block64 < total);
        let start_block = start_block64 as usize;
        let blocks = self.bytes_to_blocks(frame.size);
        assert(start_block + blocks <= total);
        let end_block = start_block + blocks;
        let ghost bits0 = self.bitmap@;
        assert(run_held(bits0, start_block as int, blocks as int));
        let mut j: usize = start_block;
        while j < end_block
            invariant
                start_block <= j <= end_block <= bits0.len(),
                self.bitmap@ == set_run(bits0, start_block as int, j - start_block, false),
                self.start_addr == old(self).start_addr,
                self.size == old(self).size,
                self.block_size == old(self).block_size,
                self.reserved == old(self).reserved,
                self.blocks_remaining == old(self).blocks_remaining,
            decreases end_block - j,
        {
            self.bitmap.set(j, false);
            assert(self.bitmap@ =~= set_run(bits0, start_block as int, j + 1 - start_block, false));
            j = j + 1;
        }
        proof {
            lemma_free_count_set_run(bits0, start_block as int, blocks as int, false);
            lemma_free_count_bound(self.bitmap@);
        }
        self.blocks_remaining = self.blocks_remaining + blocks;
        true
    }
}

/// Free bytes over all of `exts`.
pub open spec fn free_bytes(exts: Seq<PhysicalMemoryBitmap>) -> int
    decreases exts.len(),
{
    if exts.len() == 0 {
        0
    } else {
        free_bytes(exts.drop_last()) + exts.last().spec_bytes_remaining()
    }
}

/// Bytes covered by all of `exts`.
pub open spec fn extent_bytes(exts: Seq<PhysicalMemoryBitmap>) -> int
    decreases exts.len(),
{
    if exts.len() == 0 {
        0
    } else {
        extent_bytes(exts.drop_last()) + exts.last().spec_size()
    }
}

/// `e` is what `PhysicalMemoryBitmap::new(start, size, block_size)` builds.
pub open spec fn fresh_extent(e: PhysicalMemoryBitmap, start: u64, size: usize, block_size: usize) -> bool {
    &&& e.spec_start() == round_up(start as int, block_size as int)
    &&& e.spec_size() == round_down(start + size, block_size as int) - round_up(
        start as int,
        block_size as int,
    )
    &&& e.spec_block_size() == block_size
    &&& e.bits().len() * block_size == e.spec_size()
    &&& e.spec_reserved() == bitmap_blocks(e.bits().len() as int, block_size as int)
    &&& e.bits() == Seq::new(e.bits().len(), |i: int| i < e.spec_reserved())
    &&& e.spec_remaining() == e.bits().len() - e.spec_reserved()
}

/// Extent `e` has a run of free blocks long enough for `size` bytes.
pub open spec fn fits(e: PhysicalMemoryBitmap, size: int) -> bool {
    has_free_run(e.bits(), blocks_for(size, e.spec_block_size()))
}

/// Extent `e` owns `frame`, and no extent before index `k` does.
pub open spec fn is_owner(exts: Seq<PhysicalMemoryBitmap>, k: int, frame: PhysRegion) -> bool {
    &&& 0 <= k < exts.len()
    &&& exts[k].owns(frame)
    &&& forall|j: int| 0 <= j < k ==> !exts[j].owns(frame)
}

/// `after` is `before` with extent `k` replaced.
pub open spec fn only_changes(
    before: Seq<PhysicalMemoryBitmap>,
    after: Seq<PhysicalMemoryBitmap>,
    k: int,
) -> bool {
    &&& after.len() == before.len()
    &&& forall|j: int| 0 <= j < before.len() && j != k ==> after[j] == before[j]
}

proof fn lemma_free_bytes_bound(exts: Seq<PhysicalMemoryBitmap>)
    requires
        forall|k: int| 0 <= k < exts.len() ==> (#[trigger] exts[k]).wf(),
    ensures
        0 <= free_bytes(exts) <= extent_bytes(exts),
    decreases exts.len(),
{
    if exts.len() > 0 {
        lemma_free_bytes_bound(exts.drop_last());
        exts.last().lemma_wf_bounds();
        vstd::arithmetic::mul::lemma_mul_nonnegative(
            exts.last().spec_remaining(),
            exts.last().spec_block_size(),
        );
    }
}

proof fn lemma_sums_update(exts: Seq<PhysicalMemoryBitmap>, k: int, e: PhysicalMemoryBitmap)
    requires
        0 <= k < exts.len(),
    ensures
        free_bytes(exts.update(k, e)) == free_bytes(exts) - exts[k].spec_bytes_remaining()
            + e.spec_bytes_remaining(),
        extent_bytes(exts.update(k, e)) == extent_bytes(exts) - exts[k].spec_size() + e.spec_size(),
    decreases exts.len(),
{
    let u = exts.update(k, e);
    if k == exts.len() - 1 {
        assert(u.drop_last() =~= exts.drop_last());
    } else {
        assert(u.drop_last() =~= exts.drop_last().update(k, e));
        lemma_sums_update(exts.drop_last(), k, e);
    }
}

/// Extent `e` lacks a run for `size` bytes where its free bytes fall short.
proof fn lemma_short_extent_does_not_fit(e: PhysicalMemoryBitmap, size: int)
    requires
        e.wf(),
        0 <= size,
        e.spec_bytes_remaining() < size,
    ensures
        !fits(e, size),
{
    e.lemma_wf_bounds();
    let n = blocks_for(size, e.spec_block_size());
    if fits(e, size) {
        let s = choose|s: int| run_free(e.bits(), s, n);
        lemma_run_free_count(e.bits(), s, n);
        lemma_blocks_for_le(size, e.spec_block_size());
        lemma_mul_inequality(n, e.spec_remaining(), e.spec_block_size());
    }
}

/// The physical frame allocator: one bitmap per extent of usable memory, up
/// to `MAX_PHYS_REGIONS` extents, searched in the order they were reserved.
#[derive(Debug)]
pub struct PhysicalAllocator {
    regions: Vec<PhysicalMemoryBitmap>,
}

impl PhysicalAllocator {
    /// The extents, in the order they were reserved.
    pub closed spec fn extents(&self) -> Seq<PhysicalMemoryBitmap> {
        self.regions@
    }

    pub closed spec fn wf(&self) -> bool {
        &&& self.regions@.len() <= MAX_PHYS_REGIONS
        &&& forall|k: int| 0 <= k < self.regions@.len() ==> (#[trigger] self.regions@[k]).wf()
        &&& extent_bytes(self.regions@) <= usize::MAX
    }

    /// An allocator with no extent.
    pub fn new() -> (r: PhysicalAllocator)
        ensures
            r.wf(),
            all_wf(r.extents()),
            r.extents().len() == 0,
    {
        PhysicalAllocator { regions: Vec::new() }
    }

    /// Number of extents reserved so far.
    pub fn region_count(&self) -> (r: usize)
        ensures
            r == self.extents().len(),
    {
        self.regions.len()
    }

    /// Hands the extent `[start, start + size)` to the allocator, in blocks
    /// of `block_size` bytes. There must be a free extent slot, the extent
    /// must hold the boundary of one block, and the bytes of all extents must
    /// be countable in a `usize`.
    pub fn reserve(&mut self, start: u64, size: usize, block_size: usize)
        requires
            old(self).wf(),
            old(self).extents().len() < MAX_PHYS_REGIONS,
            is_pow2(block_size as int),
            start + size <= u64::MAX,
            round_up(start as int, block_size as int) <= round_down(
                start + size,
                block_size as int,
            ),
            extent_bytes(old(self).extents()) + size <= usize::MAX,
        ensures
            final(self).wf(),
            all_wf(final(self).extents()),
            final(self).extents().len() == old(self).extents().len() + 1,
            final(self).extents().drop_last() == old(self).extents(),
            fresh_extent(final(self).extents().last(), start, size, block_size),
    {
        let e = PhysicalMemoryBitmap::new(start, size, block_size);
        proof {
            lemma_pow2_positive(block_size as int);
            lemma_round_facts(start as int, block_size as int);
            lemma_round_facts(start + size, block_size as int);
        }
        self.regions.push(e);
        proof {
            assert(self.regions@.drop_last() =~= old(self).regions@);
        }
    }

    /// Bytes covered by all extents.
    pub fn total_bytes(&self) -> (r: usize)
        requires
            self.wf(),
        ensures
            r == extent_bytes(self.extents()),
    {
        let mut total: usize = 0;
        let mut k: usize = 0;
        while k < self.regions.len()
            invariant
                self.wf(),
                k <= self.regions@.len(),
                total == extent_bytes(self.regions@.take(k as int)),
            decreases self.regions@.len() - k,
        {
            proof {
                assert(self.regions@.take(k + 1).drop_last() =~= self.regions@.take(k as int));
                lemma_extent_bytes_prefix(self.regions@, k + 1);
                assert(self.regions@[k as int].wf());
                self.regions@[k as int].lemma_wf_bounds();
            }
            total = total + self.regions[k].size;
            k = k + 1;
        }
        assert(self.regions@.take(k as int) =~= self.regions@);
        total
    }

    /// Free bytes over all extents.
    pub open spec fn spec_bytes_remaining(&self) -> int {
        free_bytes(self.extents())
    }

    pub fn bytes_remaining(&self) -> (r: usize)
        requires
            self.wf(),
        ensures
            r == self.spec_bytes_remaining(),
    {
        let mut total: usize = 0;
        let mut k: usize = 0;
        proof {
            lemma_free_bytes_bound(self.regions@);
        }
        while k < self.regions.len()
            invariant
                self.wf(),
                k <= self.regions@.len(),
                total == free_bytes(self.regions@.take(k as int)),
            decreases self.regions@.len() - k,
        {
            proof {
                assert(self.regions@.take(k + 1).drop_last() =~= self.regions@.take(k as int));
                assert forall|j: int| 0 <= j < k + 1 implies (#[trigger] self.regions@.take(k + 1)[j]).wf() by {
                    assert(self.regions@[j].wf());
                }
                lemma_free_bytes_bound(self.regions@.take(k + 1));
                lemma_extent_bytes_prefix(self.regions@, k + 1);
            }
            total = total + self.regions[k].bytes_remaining();
            k = k + 1;
        }
        assert(self.regions@.take(k as int) =~= self.regions@);
        total
    }
}

/// What allocating `size` bytes from extents `before` leaves: the first
/// extent with a long enough free run allocates from it as
/// `PhysicalMemoryBitmap::allocate` does; where no extent has one, `None`
/// and nothing changes.
pub open spec fn allocator_alloc_outcome(
    before: Seq<PhysicalMemoryBitmap>,
    size: int,
    r: Option<PhysRegion>,
    after: Seq<PhysicalMemoryBitmap>,
) -> bool {
    &&& (r is None <==> forall|k: int| 0 <= k < before.len() ==> !fits(before[k], size))
    &&& r is None ==> after == before
    &&& r is Some ==> exists|k: int|
        {
            &&& 0 <= k < before.len()
            &&& fits(before[k], size)
            &&& forall|j: int| 0 <= j < k ==> !fits(before[j], size)
            &&& before[k].alloc_outcome(
                blocks_for(size, before[k].spec_block_size()),
                r,
                &after[k],
            )
            &&& only_changes(before, after, k)
        }
}

/// `frame` may be given back to extents `exts`: some extent contains it,
/// and the first extent that owns it, if any, has all its blocks in use.
pub open spec fn deallocatable(exts: Seq<PhysicalMemoryBitmap>, frame: PhysRegion) -> bool {
    &&& exists|k: int| 0 <= k < exts.len() && exts[k].spec_contains_frame(frame)
    &&& forall|k: int|
        is_owner(exts, k, frame) ==> run_held(
            exts[k].bits(),
            exts[k].first_block(frame),
            exts[k].frame_blocks(frame),
        )
}

/// What giving `frame` back to extents `before` leaves: the first extent
/// that owns it clears its blocks; where none owns it, which leaves only a
/// region that reaches into a reserved prefix, `Reserved` and nothing
/// changes.
pub open spec fn allocator_dealloc_outcome(
    before: Seq<PhysicalMemoryBitmap>,
    frame: PhysRegion,
    r: Result<(), DeallocError>,
    after: Seq<PhysicalMemoryBitmap>,
) -> bool {
    &&& (r is Err <==> forall|k: int| 0 <= k < before.len() ==> !before[k].owns(frame))
    &&& r is Err ==> r == Err::<(), DeallocError>(DeallocError::Reserved) && after == before
    &&& r is Ok ==> exists|k: int|
        {
            &&& is_owner(before, k, frame)
            &&& before[k].dealloc_outcome(frame, true, &after[k])
            &&& only_changes(before, after, k)
        }
}

impl PhysicalAllocator {
    /// Allocates `size` bytes, rounded up to whole blocks, from the lowest
    /// free run of the first extent that has one long enough; `None` where no
    /// extent has.
    pub fn allocate(&mut self, size: usize) -> (r: Option<PhysRegion>)
        requires
            old(self).wf(),
        ensures
            final(self).wf(),
            all_wf(final(self).extents()),
            allocator_alloc_outcome(old(self).extents(), size as int, r, final(self).extents()),
    {
        let n = self.regions.len();
        let mut k: usize = 0;
        while k < n
            invariant
                self.regions@ == old(self).regions@,
                old(self).wf(),
                n == self.regions@.len(),
                k <= n,
                forall|j: int| 0 <= j < k ==> !fits(self.regions@[j], size as int),
            decreases n - k,
        {
            proof {
                assert(self.regions@[k as int].wf());
            }
            let ghost before = self.regions@;
            if self.regions[k].bytes_remaining() >= size {
                let blocks = self.regions[k].bytes_to_blocks(size);
                let r = self.regions[k].allocate(blocks);
                proof {
                    lemma_sums_update(before, k as int, self.regions@[k as int]);
                    assert(self.regions@ == before.update(k as int, self.regions@[k as int]));
                }
                match r {
                    Some(region) => {
                        assert(only_changes(before, self.regions@, k as int));
                        return Some(region);
                    },
                    None => {
                        assert(self.regions@ =~= before);
                    },
                }
            } else {
                proof {
                    lemma_short_extent_does_not_fit(self.regions@[k as int], size as int);
                }
            }
            k = k + 1;
        }
        None
    }

    /// Whether `frame` may be given back: some extent contains it and the
    /// first that owns it has all of its blocks in use.
    pub fn can_deallocate(&self, frame: &PhysRegion) -> (r: bool)
        requires
            self.wf(),
        ensures
            r == deallocatable(self.extents(), *frame),
    {
        let n = self.regions.len();
        let mut contained = false;
        let mut k: usize = 0;
        while k < n
            invariant
                self.wf(),
                n == self.regions@.len(),
                k <= n,
                contained == exists|j: int| 0 <= j < k && self.regions@[j].spec_contains_frame(*frame),
                forall|j: int| 0 <= j < k ==> !self.regions@[j].owns(*frame),
            decreases n - k,
        {
            assert(self.regions@[k as int].wf());
            if self.regions[k].contains_frame(frame) {
                contained = true;
            }
            if self.regions[k].owns_frame(frame) {
                let held = self.regions[k].blocks_held(frame);
                assert(is_owner(self.regions@, k as int, *frame));
                assert forall|j: int| is_owner(self.regions@, j, *frame) implies j == k by {}
                if !held {
                    return false;
                }
                assert(exists|j: int| 0 <= j < n && self.regions@[j].spec_contains_frame(*frame));
                return true;
            }
            k = k + 1;
        }
        contained
    }

    /// Gives `frame` back to the first extent that owns it, which clears its
    /// blocks; `Reserved` where none owns it. Some extent must contain the
    /// region, and its owner must have all its blocks in use: giving back a
    /// region twice, or one never handed out, is a fault of the caller.
    pub fn deallocate(&mut self, frame: PhysRegion) -> (r: Result<(), DeallocError>)
        requires
            old(self).wf(),
            deallocatable(old(self).extents(), frame),
        ensures
            final(self).wf(),
            all_wf(final(self).extents()),
            allocator_dealloc_outcome(old(self).extents(), frame, r, final(self).extents()),
    {
        let n = self.regions.len();
        let mut k: usize = 0;
        while k < n
            invariant
                self.regions@ == old(self).regions@,
                old(self).wf(),
                deallocatable(old(self).extents(), frame),
                n == self.regions@.len(),
                k <= n,
                forall|j: int| 0 <= j < k ==> !self.regions@[j].owns(frame),
            decreases n - k,
        {
            proof {
                assert(self.regions@[k as int].wf());
                if self.regions@[k as int].owns(frame) {
                    assert(is_owner(self.regions@, k as int, frame));
                }
            }
            let ghost before = self.regions@;
            let owned = self.regions[k].try_deallocate(frame);
            proof {
                lemma_sums_update(before, k as int, self.regions@[k as int]);
                assert(self.regions@ == before.update(k as int, self.regions@[k as int]));
                self.regions@[k as int].lemma_wf_bounds();
            }
            if owned {
                assert(only_changes(before, self.regions@, k as int));
                assert(is_owner(before, k as int, frame));
                return Ok(());
            }
            assert(self.regions@ =~= before);
            k = k + 1;
        }
        Err(DeallocError::Reserved)
    }

    /// The extents of a well-formed allocator each keep their invariant.
    pub proof fn lemma_extents_wf(&self)
        requires
            self.wf(),
        ensures
            all_wf(self.extents()),
            self.extents().len() <= MAX_PHYS_REGIONS,
    {
    }
}

/// No two extents share an address.
pub open spec fn extents_disjoint(exts: Seq<PhysicalMemoryBitmap>) -> bool {
    forall|i: int, j: int|
        0 <= i < exts.len() && 0 <= j < exts.len() && i != j ==> {
            ||| exts[i].spec_start() + exts[i].spec_size() <= exts[j].spec_start()
            ||| exts[j].spec_start() + exts[j].spec_size() <= exts[i].spec_start()
        }
}

/// Every extent of `exts` keeps its invariant.
pub open spec fn all_wf(exts: Seq<PhysicalMemoryBitmap>) -> bool {
    forall|k: int| 0 <= k < exts.len() ==> (#[trigger] exts[k]).wf()
}

/// An address whose block index lies in extent `e` lies in its span.
proof fn lemma_block_index_in_span(e: PhysicalMemoryBitmap, x: int)
    requires
        e.wf(),
        e.spec_start() <= x,
        (x - e.spec_start()) / e.spec_block_size() < e.bits().len(),
    ensures
        x < e.spec_start() + e.spec_size(),
{
    e.lemma_wf_bounds();
    let d = e.spec_block_size();
    let q = (x - e.spec_start()) / d;
    lemma_fundamental_div_mod(x - e.spec_start(), d);
    vstd::arithmetic::div_mod::lemma_mod_pos_bound(x - e.spec_start(), d);
    lemma_mul_inequality(q + 1, e.bits().len() as int, d);
    lemma_mul_is_distributive_add_other_way(d, q, 1);
    vstd::arithmetic::mul::lemma_mul_is_commutative(d, q);
    vstd::arithmetic::mul::lemma_mul_is_commutative(d, e.bits().len() as int);
}

/// A region that starts in the reserved prefix of one of a set of disjoint
/// extents is refused, and the allocator is left as it was.
pub proof fn lemma_reserved_prefix_refused(
    before: Seq<PhysicalMemoryBitmap>,
    k: int,
    frame: PhysRegion,
    r: Result<(), DeallocError>,
    after: Seq<PhysicalMemoryBitmap>,
)
    requires
        all_wf(before),
        extents_disjoint(before),
        0 <= k < before.len(),
        before[k].spec_start() <= frame.start_address,
        before[k].first_block(frame) < before[k].spec_reserved(),
        allocator_dealloc_outcome(before, frame, r, after),
    ensures
        r == Err::<(), DeallocError>(DeallocError::Reserved),
        after == before,
{
    assert(before[k].wf());
    lemma_block_index_in_span(before[k], frame.start_address as int);
    assert forall|j: int| 0 <= j < before.len() implies !before[j].owns(frame) by {
        if j != k && before[j].owns(frame) {
            assert(before[j].wf());
            lemma_block_index_in_span(before[j], frame.start_address as int);
        }
    }
}

/// Every region that `allocate` hands out starts on a block boundary of the
/// extent it came from and spans a whole number of its blocks, at least the
/// bytes asked for.
pub proof fn lemma_allocation_aligned(
    before: Seq<PhysicalMemoryBitmap>,
    size: int,
    reg: PhysRegion,
    after: Seq<PhysicalMemoryBitmap>,
)
    requires
        all_wf(before),
        0 <= size,
        allocator_alloc_outcome(before, size, Some(reg), after),
    ensures
        exists|k: int|
            {
                &&& 0 <= k < before.len()
                &&& reg.start_address as int % before[k].spec_block_size() == 0
                &&& reg.size as int % before[k].spec_block_size() == 0
                &&& reg.size >= size
                &&& reg.size > 0
                &&& before[k].spec_start() + before[k].spec_reserved() * before[k].spec_block_size()
                    <= reg.start_address
                &&& reg.start_address + reg.size <= before[k].spec_start() + before[k].spec_size()
            },
{
    let k = choose|k: int|
        {
            &&& 0 <= k < before.len()
            &&& fits(before[k], size)
            &&& forall|j: int| 0 <= j < k ==> !fits(before[j], size)
            &&& before[k].alloc_outcome(
                blocks_for(size, before[k].spec_block_size()),
                Some(reg),
                &after[k],
            )
            &&& only_changes(before, after, k)
        };
    let e = before[k];
    assert(e.wf());
    e.lemma_wf_bounds();
    let d = e.spec_block_size();
    let n = blocks_for(size, d);
    let s = (reg.start_address - e.spec_start()) / d;
    assert(s >= e.spec_reserved()) by {
        if s < e.spec_reserved() {
            assert(e.bits()[s]);
        }
    }
    lemma_blocks_for_le(size, d);
    lemma_run_span(e, s, n);
    lemma_mul_le(e.spec_reserved(), s, d);
    lemma_mul_le(1, n, d);
    vstd::arithmetic::div_mod::lemma_mod_multiples_basic(s, d);
    vstd::arithmetic::div_mod::lemma_mod_multiples_basic(n, d);
    lemma_fundamental_div_mod(e.spec_start(), d);
    vstd::arithmetic::div_mod::lemma_mod_multiples_basic(e.spec_start() / d + s, d);
    lemma_mul_is_distributive_add_other_way(d, e.spec_start() / d, s);
    vstd::arithmetic::mul::lemma_mul_is_commutative(d, e.spec_start() / d);
    vstd::arithmetic::mul::lemma_mul_is_commutative(d, e.spec_start() / d + s);
    vstd::arithmetic::mul::lemma_mul_is_commutative(d, s);
    assert(reg.start_address as int % d == 0);
}

/// `reg` is live in extent `k` of `exts`: it spans whole blocks of the
/// extent, past its reserved prefix, and each of them is in use.
pub open spec fn is_live(exts: Seq<PhysicalMemoryBitmap>, k: int, reg: PhysRegion) -> bool {
    &&& 0 <= k < exts.len()
    &&& reg.size > 0
    &&& exts[k].owns(reg)
    &&& run_held(exts[k].bits(), exts[k].first_block(reg), exts[k].frame_blocks(reg))
    &&& reg.start_address == exts[k].spec_start() + exts[k].first_block(reg)
        * exts[k].spec_block_size()
    &&& reg.size == exts[k].frame_blocks(reg) * exts[k].spec_block_size()
}

/// `reg` is live in some extent of `exts`.
pub open spec fn live_in(exts: Seq<PhysicalMemoryBitmap>, reg: PhysRegion) -> bool {
    exists|k: int| is_live(exts, k, reg)
}

proof fn lemma_mul_le(a: int, b: int, d: int)
    requires
        a <= b,
        0 < d,
    ensures
        a * d <= b * d,
        a < b ==> a * d < b * d,
{
    if a < b {
        vstd::arithmetic::mul::lemma_mul_strict_inequality(a, b, d);
    } else {
        lemma_mul_inequality(a, b, d);
    }
}

/// A run of blocks `[a, a + b)` of extent `e` spans the addresses
/// `[start + a * bs, start + (a + b) * bs)`, inside the extent.
proof fn lemma_run_span(e: PhysicalMemoryBitmap, a: int, b: int)
    requires
        e.wf(),
        0 <= a,
        0 <= b,
        a + b <= e.bits().len(),
    ensures
        0 <= a * e.spec_block_size(),
        a * e.spec_block_size() + b * e.spec_block_size() == (a + b) * e.spec_block_size(),
        e.spec_start() + (a + b) * e.spec_block_size() <= e.spec_start() + e.spec_size(),
{
    e.lemma_wf_bounds();
    let d = e.spec_block_size();
    lemma_mul_le(0, a, d);
    lemma_mul_is_distributive_add_other_way(d, a, b);
    lemma_mul_le(a + b, e.bits().len() as int, d);
    vstd::arithmetic::mul::lemma_mul_is_commutative(d, e.bits().len() as int);
}

proof fn lemma_blocks_of_whole(n: int, d: int)
    requires
        0 <= n,
        0 < d,
    ensures
        blocks_for(n * d, d) == n,
{
    vstd::arithmetic::div_mod::lemma_mod_multiples_basic(n, d);
    lemma_div_multiple(n, d);
}

/// A live region lies inside the span of its extent.
proof fn lemma_live_in_span(exts: Seq<PhysicalMemoryBitmap>, k: int, reg: PhysRegion)
    requires
        all_wf(exts),
        is_live(exts, k, reg),
    ensures
        exts[k].spec_start() <= reg.start_address,
        reg.start_address + reg.size <= exts[k].spec_start() + exts[k].spec_size(),
{
    let e = exts[k];
    assert(e.wf());
    e.lemma_wf_bounds();
    lemma_blocks_for_le(reg.size as int, e.spec_block_size());
    lemma_run_span(e, e.first_block(reg), e.frame_blocks(reg));
}

/// Two live regions of one extent whose blocks share an index share an
/// address.
proof fn lemma_live_blocks_overlap(
    exts: Seq<PhysicalMemoryBitmap>,
    k: int,
    x: PhysRegion,
    y: PhysRegion,
)
    requires
        all_wf(exts),
        is_live(exts, k, x),
        is_live(exts, k, y),
        !x.spec_intersects(&y),
    ensures
        exts[k].first_block(x) + exts[k].frame_blocks(x) <= exts[k].first_block(y)
            || exts[k].first_block(y) + exts[k].frame_blocks(y) <= exts[k].first_block(x),
{
    let e = exts[k];
    assert(e.wf());
    e.lemma_wf_bounds();
    let d = e.spec_block_size();
    let (a, b) = (e.first_block(x), e.frame_blocks(x));
    let (c, f) = (e.first_block(y), e.frame_blocks(y));
    lemma_run_span(e, a, b);
    lemma_run_span(e, c, f);
    if !(a + b <= c || c + f <= a) {
        lemma_mul_le(c, a + b, d);
        lemma_mul_le(a, c + f, d);
    }
}

/// Allocating never hands out a region that shares an address with one
/// still live, and what was live stays live, the new region with it.
/// Together with `lemma_deallocation_keeps_live` this shows that no two live
/// regions ever overlap, whatever the sequence of calls.
pub proof fn lemma_allocation_disjoint_from_live(
    before: Seq<PhysicalMemoryBitmap>,
    size: int,
    reg: PhysRegion,
    after: Seq<PhysicalMemoryBitmap>,
    live: Seq<PhysRegion>,
)
    requires
        all_wf(before),
        extents_disjoint(before),
        allocator_alloc_outcome(before, size, Some(reg), after),
        forall|i: int| 0 <= i < live.len() ==> live_in(before, #[trigger] live[i]),
    ensures
        live_in(after, reg),
        forall|i: int| 0 <= i < live.len() ==> live_in(after, #[trigger] live[i]),
        forall|i: int| 0 <= i < live.len() ==> !reg.spec_intersects(&#[trigger] live[i]),
{
    let k = choose|k: int|
        {
            &&& 0 <= k < before.len()
            &&& fits(before[k], size)
            &&& forall|j: int| 0 <= j < k ==> !fits(before[j], size)
            &&& before[k].alloc_outcome(
                blocks_for(size, before[k].spec_block_size()),
                Some(reg),
                &after[k],
            )
            &&& only_changes(before, after, k)
        };
    let e = before[k];
    assert(e.wf());
    e.lemma_wf_bounds();
    let d = e.spec_block_size();
    let n = blocks_for(size, d);
    let s = (reg.start_address - e.spec_start()) / d;
    assert(n > 0);
    assert(s >= e.spec_reserved()) by {
        if s < e.spec_reserved() {
            assert(e.bits()[s]);
        }
    }
    lemma_blocks_of_whole(n, d);
    lemma_run_span(e, s, n);
    lemma_mul_le(1, n, d);
    assert(after[k].same_extent(&e));
    assert(after[k].first_block(reg) == s);
    assert(after[k].frame_blocks(reg) == n);
    assert(after[k].owns(reg));
    assert(run_held(after[k].bits(), s, n));
    assert(is_live(after, k, reg));
    assert forall|i: int| 0 <= i < live.len() implies live_in(after, #[trigger] live[i])
        && !reg.spec_intersects(&live[i]) by {
        let l = live[i];
        let m = choose|m: int| is_live(before, m, l);
        lemma_live_in_span(before, m, l);
        if m == k {
            let a = e.first_block(l);
            let b = e.frame_blocks(l);
            lemma_run_span(e, a, b);
            assert(a + b <= s || s + n <= a) by {
                if !(a + b <= s || s + n <= a) {
                    let i0 = if a <= s { s } else { a };
                    assert(e.bits()[i0]);
                }
            }
            if a + b <= s {
                lemma_mul_le(a + b, s, d);
            } else {
                lemma_mul_le(s + n, a, d);
            }
            assert(is_live(after, m, l));
        } else {
            assert(after[m] == before[m]);
            assert(is_live(after, m, l));
        }
    }
}

/// Giving back a live region succeeds, and every other live region that
/// shares no address with it stays live.
pub proof fn lemma_deallocation_keeps_live(
    before: Seq<PhysicalMemoryBitmap>,
    reg: PhysRegion,
    r: Result<(), DeallocError>,
    after: Seq<PhysicalMemoryBitmap>,
    live: Seq<PhysRegion>,
)
    requires
        all_wf(before),
        extents_disjoint(before),
        live_in(before, reg),
        forall|i: int| 0 <= i < live.len() ==> live_in(before, #[trigger] live[i]),
        forall|i: int| 0 <= i < live.len() ==> !reg.spec_intersects(&#[trigger] live[i]),
        allocator_dealloc_outcome(before, reg, r, after),
    ensures
        r is Ok,
        extents_disjoint(after),
        forall|i: int| 0 <= i < live.len() ==> live_in(after, #[trigger] live[i]),
{
    let k = lemma_live_owner(before, reg);
    let k2 = choose|k2: int|
        {
            &&& is_owner(before, k2, reg)
            &&& before[k2].dealloc_outcome(reg, true, &after[k2])
            &&& only_changes(before, after, k2)
        };
    assert(k2 == k);
    let e = before[k];
    assert forall|i: int| 0 <= i < live.len() implies live_in(after, #[trigger] live[i]) by {
        let l = live[i];
        let m = choose|m: int| is_live(before, m, l);
        if m == k {
            lemma_live_blocks_overlap(before, k, reg, l);
            assert(is_live(after, m, l));
        } else {
            assert(after[m] == before[m]);
            assert(is_live(after, m, l));
        }
    }
}

/// The extent a live region is live in is the first, and only, one that
/// owns it.
proof fn lemma_live_owner(exts: Seq<PhysicalMemoryBitmap>, reg: PhysRegion) -> (k: int)
    requires
        all_wf(exts),
        extents_disjoint(exts),
        live_in(exts, reg),
    ensures
        is_live(exts, k, reg),
        is_owner(exts, k, reg),
        forall|j: int| 0 <= j < exts.len() && exts[j].owns(reg) ==> j == k,
{
    let k = choose|k: int| is_live(exts, k, reg);
    lemma_live_in_span(exts, k, reg);
    assert forall|j: int| 0 <= j < exts.len() && exts[j].owns(reg) implies j == k by {
        if j != k {
            assert(exts[j].wf());
            lemma_block_index_in_span(exts[j], reg.start_address as int);
        }
    }
    k
}

/// A live region may be given back: `deallocate` accepts it.
pub proof fn lemma_live_is_deallocatable(exts: Seq<PhysicalMemoryBitmap>, reg: PhysRegion)
    requires
        all_wf(exts),
        extents_disjoint(exts),
        live_in(exts, reg),
    ensures
        deallocatable(exts, reg),
{
    let k = lemma_live_owner(exts, reg);
    assert(exts[k].spec_contains_frame(reg));
}

/// Allocating a region takes exactly its size from the free bytes.
pub proof fn lemma_allocation_takes_its_size(
    before: Seq<PhysicalMemoryBitmap>,
    size: int,
    reg: PhysRegion,
    after: Seq<PhysicalMemoryBitmap>,
)
    requires
        all_wf(before),
        allocator_alloc_outcome(before, size, Some(reg), after),
    ensures
        free_bytes(after) == free_bytes(before) - reg.size,
        extents_disjoint(before) ==> extents_disjoint(after),
{
    let k = choose|k: int|
        {
            &&& 0 <= k < before.len()
            &&& fits(before[k], size)
            &&& forall|j: int| 0 <= j < k ==> !fits(before[j], size)
            &&& before[k].alloc_outcome(
                blocks_for(size, before[k].spec_block_size()),
                Some(reg),
                &after[k],
            )
            &&& only_changes(before, after, k)
        };
    let e = before[k];
    let n = blocks_for(size, e.spec_block_size());
    assert(after =~= before.update(k, after[k]));
    lemma_sums_update(before, k, after[k]);
    vstd::arithmetic::mul::lemma_mul_is_distributive_sub_other_way(
        e.spec_block_size(),
        e.spec_remaining(),
        n,
    );
}

/// Giving back a live region returns exactly its size to the free bytes.
pub proof fn lemma_deallocation_returns_its_size(
    before: Seq<PhysicalMemoryBitmap>,
    reg: PhysRegion,
    r: Result<(), DeallocError>,
    after: Seq<PhysicalMemoryBitmap>,
)
    requires
        all_wf(before),
        extents_disjoint(before),
        live_in(before, reg),
        allocator_dealloc_outcome(before, reg, r, after),
    ensures
        r is Ok,
        extents_disjoint(after),
        free_bytes(after) == free_bytes(before) + reg.size,
{
    lemma_deallocation_keeps_live(before, reg, r, after, Seq::empty());
    let k = lemma_live_owner(before, reg);
    let k2 = choose|k2: int|
        {
            &&& is_owner(before, k2, reg)
            &&& before[k2].dealloc_outcome(reg, true, &after[k2])
            &&& only_changes(before, after, k2)
        };
    assert(k2 == k);
    let e = before[k];
    assert(after =~= before.update(k, after[k]));
    lemma_sums_update(before, k, after[k]);
    vstd::arithmetic::mul::lemma_mul_is_distributive_add_other_way(
        e.spec_block_size(),
        e.spec_remaining(),
        e.frame_blocks(reg),
    );
}

/// Allocating a region and giving it back leaves the free bytes as they
/// were.
pub proof fn lemma_allocate_then_deallocate_conserves(
    s0: Seq<PhysicalMemoryBitmap>,
    size: int,
    reg: PhysRegion,
    s1: Seq<PhysicalMemoryBitmap>,
    r: Result<(), DeallocError>,
    s2: Seq<PhysicalMemoryBitmap>,
)
    requires
        all_wf(s0),
        extents_disjoint(s0),
        all_wf(s1),
        allocator_alloc_outcome(s0, size, Some(reg), s1),
        allocator_dealloc_outcome(s1, reg, r, s2),
    ensures
        r is Ok,
        free_bytes(s2) == free_bytes(s0),
{
    lemma_allocation_disjoint_from_live(s0, size, reg, s1, Seq::empty());
    lemma_allocation_takes_its_size(s0, size, reg, s1);
    lemma_deallocation_returns_its_size(s1, reg, r, s2);
}

proof fn lemma_extent_bytes_prefix(exts: Seq<PhysicalMemoryBitmap>, k: int)
    requires
        0 <= k <= exts.len(),
        forall|j: int| 0 <= j < exts.len() ==> (#[trigger] exts[j]).wf(),
    ensures
        extent_bytes(exts.take(k)) <= extent_bytes(exts),
    decreases exts.len(),
{
    if k < exts.len() {
        assert(exts.drop_last().take(k) =~= exts.take(k));
        lemma_extent_bytes_prefix(exts.drop_last(), k);
        exts.last().lemma_wf_bounds();
    } else {
        assert(exts.take(k) =~= exts);
    }
}

/// What `usable_extent` returns.
pub open spec fn spec_usable_extent(area: PhysRegion, kernel: PhysRegion) -> Option<PhysRegion> {
    if area.start_address < kernel.start_address {
        None
    } else if area.spec_intersects(&kernel) {
        Some(
            PhysRegion {
                start_address: (kernel.start_address + kernel.size) as u64,
                size: (area.start_address + area.size - (kernel.start_address + kernel.size)) as usize,
            },
        )
    } else {
        Some(area)
    }
}

/// The part of an available memory area that the frame allocator may take,
/// given the kernel image's span: none where the area starts below the
/// kernel; what lies past the kernel where the two overlap; the whole area
/// otherwise.
pub fn usable_extent(area: PhysRegion, kernel: PhysRegion) -> (r: Option<PhysRegion>)
    requires
        area.start_address + area.size <= u64::MAX,
        kernel.start_address + kernel.size <= u64::MAX,
        area.spec_intersects(&kernel) ==> kernel.start_address + kernel.size <= area.start_address
            + area.size,
    ensures
        area.start_address < kernel.start_address ==> r is None,
        area.start_address >= kernel.start_address && area.spec_intersects(&kernel) ==> r == Some(
            PhysRegion {
                start_address: (kernel.start_address + kernel.size) as u64,
                size: (area.start_address + area.size - (kernel.start_address + kernel.size)) as usize,
            },
        ),
        area.start_address >= kernel.start_address && !area.spec_intersects(&kernel) ==> r == Some(
            area,
        ),
        r == spec_usable_extent(area, kernel),
{
    let mut start = area.start_address;
    let mut size = area.size;
    if area.intersects(&kernel) {
        start = kernel.end_address();
        size = (area.end_address() - start) as usize;
    }
    if area.start_address < kernel.start_address {
        return None;
    }
    Some(PhysRegion { start_address: start, size })
}

/// The extent the frame allocator takes from memory-map entry `area`, given
/// the kernel image's span: none unless the area is available; otherwise
/// what `usable_extent` leaves of the area from its first page boundary.
pub fn reservable_extent(area: MemoryArea, kernel: PhysRegion) -> (r: Option<PhysRegion>)
    requires
        round_up(area.addr as int, 4096) + area.len <= u64::MAX,
        area.len <= usize::MAX,
        kernel.start_address + kernel.size <= u64::MAX,
        ({
            let region = PhysRegion {
                start_address: round_up(area.addr as int, 4096) as u64,
                size: area.len as usize,
            };
            region.spec_intersects(&kernel) ==> kernel.start_address + kernel.size
                <= region.start_address + region.size
        }),
    ensures
        area.area_type != MemoryAreaType::Available ==> r is None,
        area.area_type == MemoryAreaType::Available ==> r == spec_usable_extent(
            PhysRegion { start_address: round_up(area.addr as int, 4096) as u64, size: area.len as usize },
            kernel,
        ),
{
    if !matches!(area.area_type(), MemoryAreaType::Available) {
        return None;
    }
    let region = PhysRegion { start_address: area.start_address(), size: area.size() as usize };
    usable_extent(region, kernel)
}

proof fn lemma_div_multiple(q: int, d: int)
    requires
        0 <= q,
        0 < d,
    ensures
        (q * d) / d == q,
{
    vstd::arithmetic::div_mod::lemma_div_multiples_vanish(q, d);
    vstd::arithmetic::mul::lemma_mul_is_commutative(q, d);
}

} // verus!
