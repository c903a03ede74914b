//! checking recompiled code against an interpreter. both run a function
//! from the same made up state over their own copy of the title's memory,
//! and anything that differs afterwards is a bug in one of them.

use crate::abi;
use crate::arm;
use crate::bytes;
use crate::text;
use vstd::prelude::*;

verus! {

pub const PAGE_SIZE: u32 = 0x1000;

/// the return address functions are called with, which nothing maps.
pub const RETURN: u32 = 0xFFFF_FFF0;

pub const STACK_TOP: u32 = 0x1000_0000;

pub const STACK_SIZE: u32 = 0x4_0000;

pub const HEAP: u32 = 0x0800_0000;

pub const HEAP_SIZE: u32 = 0x4_0000;

pub const TLS: u32 = 0x1FF8_2000;

/// instructions a run may take before it counts as stuck.
pub const LIMIT: i32 = 200_000;

/// where the harness loads the module it checks.
pub const MODULE_BASE: u32 = 0x0A00_0000;

/// what a module's imports lead to, a function returning zero.
pub const IMPORT_STUB: u32 = 0x0B00_0000;

/// the pages of the whole address space.
pub const PAGES: u64 = 0x10_0000;

pub struct Region {
    pub base: u32,
    pub bytes: Vec<u8>,
    pub writable: bool,
}

/// a region as mathematical values.
#[verifier::ext_equal]
pub struct Block {
    pub base: u32,
    pub bytes: Seq<u8>,
    pub writable: bool,
}

impl View for Region {
    type V = Block;

    open spec fn view(&self) -> Block {
        Block { base: self.base, bytes: self.bytes@, writable: self.writable }
    }
}

/// the title's memory, and how often something was touched that is not
/// there.
pub struct Memory {
    pub regions: Vec<Region>,
    pub faults: u64,
}

/// a memory as mathematical values.
#[verifier::ext_equal]
pub struct Space {
    pub blocks: Seq<Block>,
    pub faults: u64,
}

pub open spec fn blocks(regions: Seq<Region>) -> Seq<Block> {
    regions.map_values(|region: Region| region@)
}

impl View for Memory {
    type V = Space;

    open spec fn view(&self) -> Space {
        Space { blocks: blocks(self.regions@), faults: self.faults }
    }
}

impl Block {
    /// the pages the block takes up are there.
    pub open spec fn fits(self) -> bool {
        let size = crate::rom::round_up(self.bytes.len() as int, PAGE_SIZE as int);
        size <= usize::MAX && self.base / PAGE_SIZE + size / 0x1000 <= PAGES
    }

    /// the block with its last page filled up.
    pub open spec fn filled(self) -> Block {
        let size = crate::rom::round_up(self.bytes.len() as int, PAGE_SIZE as int);
        Block {
            bytes: self.bytes + Seq::new((size - self.bytes.len()) as nat, |i: int| 0u8),
            ..self
        }
    }

    /// the block is whole pages of the address space.
    pub open spec fn paged(self) -> bool {
        &&& self.bytes.len() % 0x1000 == 0
        &&& self.base / PAGE_SIZE + self.bytes.len() / 0x1000 <= PAGES
    }

    /// where address is in the block. a block starts where its page does.
    pub open spec fn slot(self, address: u32) -> int {
        (address / PAGE_SIZE - self.base / PAGE_SIZE) * 0x1000 + address % PAGE_SIZE
    }

    /// the page of address is one of the block's.
    pub open spec fn covers(self, address: u32) -> bool {
        self.base / PAGE_SIZE <= address / PAGE_SIZE < self.base / PAGE_SIZE + self.bytes.len()
            / 0x1000
    }
}

/// the last of the first count of blocks that address is in, of the ones
/// that can be written when it is for writing.
pub open spec fn mapped(blocks: Seq<Block>, address: u32, writing: bool, count: nat) -> Option<int>
    decreases count,
{
    if count == 0 {
        None
    } else {
        let block = blocks[count - 1];
        if block.covers(address) && (block.writable || !writing) {
            Some(count - 1)
        } else {
            mapped(blocks, address, writing, (count - 1) as nat)
        }
    }
}

/// the byte at address, if there is one.
#[verifier::opaque]
pub open spec fn byte_in(blocks: Seq<Block>, address: u32) -> Option<u8> {
    match mapped(blocks, address, false, blocks.len()) {
        Some(i) => Some(blocks[i].bytes[blocks[i].slot(address)]),
        None => None,
    }
}

/// one more fault, as far as the counter goes.
pub open spec fn one_more(count: u64) -> u64 {
    if count < u64::MAX {
        (count + 1) as u64
    } else {
        count
    }
}

impl Space {
    pub open spec fn paged(self) -> bool {
        forall|i: int| 0 <= i < self.blocks.len() ==> (#[trigger] self.blocks[i]).paged()
    }

    /// the byte at address, if there is one.
    pub open spec fn byte(self, address: u32) -> Option<u8> {
        byte_in(self.blocks, address)
    }

    /// the byte that reading address gives.
    pub open spec fn read(self, address: u32) -> u8 {
        match self.byte(address) {
            Some(byte) => byte,
            None => 0,
        }
    }

    /// the space after reading address.
    pub open spec fn after_read(self, address: u32) -> Space {
        if self.byte(address) is Some {
            self
        } else {
            Space { faults: one_more(self.faults), ..self }
        }
    }

    /// the space after reading count bytes from address on.
    pub open spec fn after_reads(self, address: u32, count: nat) -> Space
        decreases count,
    {
        if count == 0 {
            self
        } else {
            self.after_reads(address, (count - 1) as nat).after_read(
                arm::displaced(address, count - 1),
            )
        }
    }

    /// the space after writing value at address.
    #[verifier::opaque]
    pub open spec fn after_write(self, address: u32, value: u8) -> Space {
        match mapped(self.blocks, address, true, self.blocks.len()) {
            Some(i) => {
                let block = self.blocks[i];
                Space {
                    blocks: self.blocks.update(
                        i,
                        Block { bytes: block.bytes.update(block.slot(address), value), ..block },
                    ),
                    ..self
                }
            },
            None => Space { faults: one_more(self.faults), ..self },
        }
    }

    /// the space after writing the first count of values from address on.
    pub open spec fn after_writes(self, address: u32, values: Seq<u8>, count: nat) -> Space
        decreases count,
    {
        if count == 0 {
            self
        } else {
            self.after_writes(address, values, (count - 1) as nat).after_write(
                arm::displaced(address, count - 1),
                values[count - 1],
            )
        }
    }
}

/// a block that covers address has a byte for it.
proof fn lemma_slot(block: Block, address: u32)
    requires
        block.paged(),
        block.covers(address),
    ensures
        0 <= block.slot(address) < block.bytes.len(),
{
}

proof fn lemma_mapped(blocks: Seq<Block>, address: u32, writing: bool, count: nat)
    requires
        count <= blocks.len(),
    ensures
        mapped(blocks, address, writing, count) matches Some(i) ==> 0 <= i < count
            && blocks[i].covers(address) && (blocks[i].writable || !writing),
    decreases count,
{
    if count > 0 {
        lemma_mapped(blocks, address, writing, (count - 1) as nat);
    }
}

impl Memory {
    /// the title's memory out of its regions, each filled up to whole pages.
    pub fn new(regions: Vec<Region>) -> (memory: Memory)
        requires
            forall|i: int| 0 <= i < regions@.len() ==> (#[trigger] regions@[i])@.fits(),
        ensures
            memory@.paged(),
            memory@.faults == 0,
            memory@.blocks == blocks(regions@).map_values(|block: Block| block.filled()),
    {
        let ghost given = blocks(regions@);
        let mut left = regions;
        let mut done: Vec<Region> = Vec::new();
        let count = left.len();
        for i in 0..count
            invariant
                given == blocks(regions@),
                forall|j: int| 0 <= j < regions@.len() ==> (#[trigger] regions@[j])@.fits(),
                count == regions@.len(),
                left@ == regions@.skip(i as int),
                done@.len() == i,
                forall|j: int| 0 <= j < i ==> (#[trigger] done@[j])@ == given[j].filled(),
                forall|j: int| 0 <= j < i ==> (#[trigger] done@[j])@.paged(),
        {
            let mut region = left.remove(0);
            assert(region == regions@[i as int]);
            assert(left@ =~= regions@.skip(i + 1));
            let size = region.bytes.len();
            let ghost before = region@;
            assert(before.fits());
            let pages = size / 0x1000 + if size % 0x1000 == 0 {
                0
            } else {
                1
            };
            assert(crate::rom::round_up(size as int, 0x1000) == pages * 0x1000);
            region.bytes.resize(pages * 0x1000, 0);
            assert(region@ =~= before.filled());
            done.push(region);
        }
        let memory = Memory { regions: done, faults: 0 };
        proof {
            assert(memory@.blocks =~= given.map_values(|block: Block| block.filled()));
            assert forall|i: int| 0 <= i < memory@.blocks.len() implies (
            #[trigger] memory@.blocks[i]).paged() by {
                assert(memory@.blocks[i] == done@[i]@);
            }
        }
        memory
    }

    /// the last region that address is in, for writing or not.
    fn find(&self, address: u32, writing: bool) -> (found: Option<usize>)
        requires
            self@.paged(),
        ensures
            found is Some <==> mapped(self@.blocks, address, writing, self@.blocks.len()) is Some,
            found matches Some(i) ==> {
                &&& i == mapped(self@.blocks, address, writing, self@.blocks.len())->0
                &&& i < self.regions@.len()
                &&& self.regions@[i as int]@.covers(address)
            },
    {
        let mut count = self.regions.len();
        let page = address / PAGE_SIZE;
        let ghost all = self@.blocks;
        while count > 0
            invariant
                self@.paged(),
                all == self@.blocks,
                page == address / PAGE_SIZE,
                count <= self.regions@.len(),
                mapped(all, address, writing, all.len()) == mapped(
                    all,
                    address,
                    writing,
                    count as nat,
                ),
            decreases count,
        {
            let region = &self.regions[count - 1];
            assert(all[count - 1] == region@);
            let first = (region.base / PAGE_SIZE) as u64;
            let pages = region.bytes.len() as u64 / 0x1000;
            if (region.writable || !writing) && first <= page as u64 && (page as u64) - first
                < pages {
                return Some(count - 1);
            }
            count -= 1;
        }
        None
    }

    /// where address is in region, which covers it.
    fn slot(&self, number: usize, address: u32) -> (slot: usize)
        requires
            self@.paged(),
            number < self.regions@.len(),
            self.regions@[number as int]@.covers(address),
        ensures
            slot == self.regions@[number as int]@.slot(address),
            slot < self.regions@[number as int].bytes@.len(),
    {
        let region = &self.regions[number];
        assert(self@.blocks[number as int] == region@);
        proof {
            lemma_slot(region@, address);
        }
        let slot = (address / PAGE_SIZE - region.base / PAGE_SIZE) as u64 * 0x1000 + (address
            % PAGE_SIZE) as u64;
        slot as usize
    }

    fn fault(&mut self)
        ensures
            final(self)@ == (Space { faults: one_more(old(self)@.faults), ..old(self)@ }),
    {
        if self.faults < u64::MAX {
            self.faults = self.faults + 1;
        }
    }

    pub fn read8(&mut self, address: u32) -> (byte: u8)
        requires
            old(self)@.paged(),
        ensures
            byte == old(self)@.read(address),
            final(self)@ == old(self)@.after_read(address),
            final(self)@.paged(),
    {
        reveal(byte_in);
        match self.find(address, false) {
            Some(region) => {
                let slot = self.slot(region, address);
                self.regions[region].bytes[slot]
            },
            None => {
                self.fault();
                0
            },
        }
    }

    pub fn write8(&mut self, address: u32, value: u8)
        requires
            old(self)@.paged(),
        ensures
            final(self)@ == old(self)@.after_write(address, value),
            final(self)@.paged(),
    {
        reveal(Space::after_write);
        match self.find(address, true) {
            Some(region) => {
                let slot = self.slot(region, address);
                let ghost before = self@;
                self.regions[region].bytes[slot] = value;
                proof {
                    assert(self@.blocks =~= before.after_write(address, value).blocks);
                }
            },
            None => self.fault(),
        }
    }

    pub fn read16(&mut self, address: u32) -> (value: u16)
        requires
            old(self)@.paged(),
        ensures
            value == bytes::le16(old(self)@.reads(address, 2), 0),
            final(self)@ == old(self)@.after_reads(address, 2),
            final(self)@.paged(),
    {
        let ghost before = self@;
        proof {
            reveal_with_fuel(Space::after_reads, 3);
            lemma_reads(before, address, 1);
            lemma_reads(before, address, 2);
        }
        let low = self.read8(address);
        let high = self.read8(address.wrapping_add(1));
        low as u16 + high as u16 * 0x100
    }

    pub fn read32(&mut self, address: u32) -> (value: u32)
        requires
            old(self)@.paged(),
        ensures
            value == bytes::le32(old(self)@.reads(address, 4), 0),
            final(self)@ == old(self)@.after_reads(address, 4),
            final(self)@.paged(),
    {
        let ghost before = self@;
        proof {
            reveal_with_fuel(Space::after_reads, 5);
            lemma_reads(before, address, 1);
            lemma_reads(before, address, 2);
            lemma_reads(before, address, 3);
            lemma_reads(before, address, 4);
        }
        let a = self.read8(address);
        let b = self.read8(address.wrapping_add(1));
        let c = self.read8(address.wrapping_add(2));
        let d = self.read8(address.wrapping_add(3));
        a as u32 + b as u32 * 0x100 + c as u32 * 0x1_0000 + d as u32 * 0x100_0000
    }

    pub fn write16(&mut self, address: u32, value: u16)
        requires
            old(self)@.paged(),
        ensures
            final(self)@ == old(self)@.after_writes(address, bytes::le_bytes(value as u32), 2),
            final(self)@.paged(),
    {
        proof {
            reveal_with_fuel(Space::after_writes, 3);
        }
        self.write8(address, (value % 0x100) as u8);
        self.write8(address.wrapping_add(1), (value / 0x100) as u8);
    }

    pub fn write32(&mut self, address: u32, value: u32)
        requires
            old(self)@.paged(),
        ensures
            final(self)@ == old(self)@.after_writes(address, bytes::le_bytes(value), 4),
            final(self)@.paged(),
    {
        proof {
            reveal_with_fuel(Space::after_writes, 5);
        }
        self.write8(address, (value % 0x100) as u8);
        self.write8(address.wrapping_add(1), (value / 0x100 % 0x100) as u8);
        self.write8(address.wrapping_add(2), (value / 0x1_0000 % 0x100) as u8);
        self.write8(address.wrapping_add(3), (value / 0x100_0000) as u8);
    }

    /// a copy with no faults.
    pub fn duplicate(&self) -> (copy: Memory)
        requires
            self@.paged(),
        ensures
            copy@ == (Space { faults: 0, ..self@ }),
            copy@.paged(),
    {
        let regions = copy_regions(&self.regions);
        let copy = Memory { regions, faults: 0 };
        assert(copy@.blocks =~= self@.blocks);
        copy
    }

    /// takes over what can be written from other, which has to have the same
    /// regions.
    pub fn copy_from(&mut self, other: &Memory)
        requires
            old(self)@.paged(),
            old(self)@.alike(other@),
        ensures
            final(self)@.paged(),
            final(self)@.alike(other@),
            final(self)@ == old(self)@.restored(other@),
    {
        let count = self.regions.len();
        let ghost before = self@;
        for i in 0..count
            invariant
                before.paged(),
                before.alike(other@),
                count == before.blocks.len(),
                self.regions@.len() == count,
                before == old(self)@,
                forall|j: int|
                    0 <= j < i ==> (#[trigger] self.regions@[j])@ == before.restored(
                        other@,
                    ).blocks[j],
                forall|j: int|
                    i <= j < count ==> (#[trigger] self.regions@[j])@ == before.blocks[j],
        {
            assert(self.regions@[i as int]@ == before.blocks[i as int]);
            assert(other@.blocks[i as int] == other.regions@[i as int]@);
            if self.regions[i].writable {
                let copy = bytes::copied(other.regions[i].bytes.as_slice());
                self.regions[i].bytes = copy;
            }
        }
        self.faults = 0;
        assert(self@.blocks =~= before.restored(other@).blocks);
        proof {
            assert forall|i: int| 0 <= i < self@.blocks.len() implies (
            #[trigger] self@.blocks[i]).paged() by {
                assert(before.blocks[i].paged());
            }
        }
    }

    /// the first address whose byte differs between two copies, where two
    /// NaNs count as the same whatever their bits.
    pub fn first_difference(&self, other: &Memory) -> (address: Option<u32>)
        requires
            self@.alike(other@),
        ensures
            address == difference(self@, other@, 0),
    {
        let mut i: usize = 0;
        while i < self.regions.len()
            invariant
                i <= self.regions@.len(),
                self@.alike(other@),
                difference(self@, other@, 0) == difference(self@, other@, i as nat),
            decreases self.regions@.len() - i,
        {
            let region = &self.regions[i];
            assert(self@.blocks[i as int] == region@);
            assert(other@.blocks[i as int] == other.regions@[i as int]@);
            if region.writable {
                let mine = region.bytes.as_slice();
                let theirs = other.regions[i].bytes.as_slice();
                if let Some(at) = find_difference(mine, theirs) {
                    let offset = (at as u64 % 0x1_0000_0000) as u32;
                    assert((region.base + offset) % 0x1_0000_0000 == (region.base + at)
                        % 0x1_0000_0000);
                    return Some(region.base.wrapping_add(offset));
                }
            }
            i += 1;
        }
        None
    }
}

fn copy_regions(regions: &Vec<Region>) -> (copies: Vec<Region>)
    ensures
        blocks(copies@) == blocks(regions@),
{
    let mut copies: Vec<Region> = Vec::new();
    for i in 0..regions.len()
        invariant
            copies@.len() == i,
            forall|j: int| 0 <= j < i ==> (#[trigger] copies@[j])@ == regions@[j]@,
    {
        let region = &regions[i];
        copies.push(
            Region {
                base: region.base,
                bytes: bytes::copied(region.bytes.as_slice()),
                writable: region.writable,
            },
        );
    }
    assert(blocks(copies@) =~= blocks(regions@));
    copies
}

impl Space {
    /// the bytes that reading count of them from address on gives.
    pub open spec fn reads(self, address: u32, count: nat) -> Seq<u8> {
        Seq::new(count, |i: int| self.read(arm::displaced(address, i)))
    }

    /// the two have the same regions, whatever is in them.
    pub open spec fn alike(self, other: Space) -> bool {
        &&& self.blocks.len() == other.blocks.len()
        &&& forall|i: int|
            0 <= i < self.blocks.len() ==> (#[trigger] self.blocks[i]).bytes.len()
                == other.blocks[i].bytes.len()
    }

    /// the space with what can be written taken over from other.
    pub open spec fn restored(self, other: Space) -> Space {
        Space {
            blocks: Seq::new(
                self.blocks.len(),
                |i: int|
                    if self.blocks[i].writable {
                        Block { bytes: other.blocks[i].bytes, ..self.blocks[i] }
                    } else {
                        self.blocks[i]
                    },
            ),
            faults: 0,
        }
    }
}

/// reading changes no byte.
proof fn lemma_reads(space: Space, address: u32, count: nat)
    ensures
        space.after_reads(address, count).blocks == space.blocks,
    decreases count,
{
    if count > 0 {
        lemma_reads(space, address, (count - 1) as nat);
    }
}

/// bits are those of a NaN in 32 bits.
pub open spec fn is_nan32(bits: u32) -> bool {
    bits % 0x8000_0000 > 0x7F80_0000
}

/// bits are those of a NaN in 64 bits.
pub open spec fn is_nan64(bits: u64) -> bool {
    bits % 0x8000_0000_0000_0000 > 0x7FF0_0000_0000_0000
}

pub fn nan32(bits: u32) -> (answer: bool)
    ensures
        answer == is_nan32(bits),
{
    bits % 0x8000_0000 > 0x7F80_0000
}

pub fn nan64(bits: u64) -> (answer: bool)
    ensures
        answer == is_nan64(bits),
{
    bits % 0x8000_0000_0000_0000 > 0x7FF0_0000_0000_0000
}

/// the single at offset is a NaN in both.
#[verifier::opaque]
pub open spec fn single_nans(a: Seq<u8>, b: Seq<u8>, offset: int) -> bool {
    offset + 4 <= a.len() && offset + 4 <= b.len() && is_nan32(bytes::le32(a, offset))
        && is_nan32(bytes::le32(b, offset))
}

/// the double at offset is a NaN in both.
#[verifier::opaque]
pub open spec fn double_nans(a: Seq<u8>, b: Seq<u8>, offset: int) -> bool {
    offset + 8 <= a.len() && offset + 8 <= b.len() && is_nan64(bytes::le64(a, offset))
        && is_nan64(bytes::le64(b, offset))
}

/// the byte at i is the same in both, or belongs to a float that is a NaN in
/// both.
pub open spec fn byte_alike(a: Seq<u8>, b: Seq<u8>, i: int) -> bool {
    a[i] == b[i] || double_nans(a, b, i / 8 * 8) || single_nans(a, b, i / 4 * 4)
}

/// the first place from i on where a and b differ, two NaNs not counting.
pub open spec fn difference_from(a: Seq<u8>, b: Seq<u8>, i: nat) -> Option<nat>
    decreases a.len() - i,
{
    if i >= a.len() {
        None
    } else if byte_alike(a, b, i as int) {
        difference_from(a, b, i + 1)
    } else {
        Some(i)
    }
}

/// the first address from a region on whose byte differs where it can be
/// written.
pub open spec fn difference(a: Space, b: Space, number: nat) -> Option<u32>
    decreases a.blocks.len() - number,
{
    if number >= a.blocks.len() {
        None
    } else {
        let block = a.blocks[number as int];
        match difference_from(block.bytes, b.blocks[number as int].bytes, 0) {
            Some(at) => if block.writable {
                Some(arm::displaced(block.base, at as int))
            } else {
                difference(a, b, number + 1)
            },
            None => difference(a, b, number + 1),
        }
    }
}

/// whether the float of size bytes at offset is a NaN in both a and b.
fn nans(a: &[u8], b: &[u8], offset: usize, size: usize) -> (answer: bool)
    requires
        size == 4 || size == 8,
        offset <= a@.len(),
    ensures
        size == 4 ==> answer == single_nans(a@, b@, offset as int),
        size == 8 ==> answer == double_nans(a@, b@, offset as int),
        answer ==> offset + size <= a@.len(),
{
    reveal(single_nans);
    reveal(double_nans);
    if a.len() - offset < size || b.len() < offset || b.len() - offset < size {
        return false;
    }
    if size == 4 {
        nan32(bytes::u32_at(a, offset)) && nan32(bytes::u32_at(b, offset))
    } else {
        nan64(bytes::u64_at(a, offset)) && nan64(bytes::u64_at(b, offset))
    }
}

/// places that are alike are passed over.
proof fn lemma_alike_skipped(a: Seq<u8>, b: Seq<u8>, i: nat, j: nat)
    requires
        i <= j,
        forall|k: int| i <= k < j && k < a.len() ==> #[trigger] byte_alike(a, b, k),
    ensures
        difference_from(a, b, i) == difference_from(a, b, j),
    decreases j - i,
{
    if i < j {
        lemma_alike_skipped(a, b, i + 1, j);
        if i < a.len() {
            assert(byte_alike(a, b, i as int));
        }
    }
}

proof fn lemma_same_float(i: int, k: int)
    requires
        0 <= i <= k,
    ensures
        k < i / 8 * 8 + 8 ==> k / 8 * 8 == i / 8 * 8,
        k < i / 4 * 4 + 4 ==> k / 4 * 4 == i / 4 * 4,
{
    let (eight, four) = (i / 8, i / 4);
    assert(8 * eight <= i && 4 * four <= i);
    if k < 8 * eight + 8 {
        assert(k / 8 == eight);
    }
    if k < 4 * four + 4 {
        assert(k / 4 == four);
    }
}

/// so is the rest of a double that is a NaN in both.
proof fn lemma_double_skipped(a: Seq<u8>, b: Seq<u8>, i: nat)
    requires
        double_nans(a, b, (i / 8 * 8) as int),
    ensures
        difference_from(a, b, i) == difference_from(a, b, i / 8 * 8 + 8),
{
    let end = i / 8 * 8 + 8;
    assert forall|k: int| i <= k < end && k < a.len() implies #[trigger] byte_alike(a, b, k) by {
        lemma_same_float(i as int, k);
    }
    lemma_alike_skipped(a, b, i, end);
}

/// and the rest of a single.
proof fn lemma_single_skipped(a: Seq<u8>, b: Seq<u8>, i: nat)
    requires
        single_nans(a, b, (i / 4 * 4) as int),
    ensures
        difference_from(a, b, i) == difference_from(a, b, i / 4 * 4 + 4),
{
    let end = i / 4 * 4 + 4;
    assert forall|k: int| i <= k < end && k < a.len() implies #[trigger] byte_alike(a, b, k) by {
        lemma_same_float(i as int, k);
    }
    lemma_alike_skipped(a, b, i, end);
}

/// the first place where a and b differ, two NaNs not counting.
fn find_difference(a: &[u8], b: &[u8]) -> (found: Option<usize>)
    requires
        a@.len() == b@.len(),
    ensures
        found is Some <==> difference_from(a@, b@, 0) is Some,
        found matches Some(i) ==> i == difference_from(a@, b@, 0)->0,
{
    let size = a.len();
    let mut i: usize = 0;
    while i < size
        invariant
            size == a@.len(),
            a@.len() == b@.len(),
            i <= size,
            difference_from(a@, b@, 0) == difference_from(a@, b@, i as nat),
        decreases size - i,
    {
        if a[i] == b[i] {
            i += 1;
            continue ;
        }
        let word = i / 4 * 4;
        let double = i / 8 * 8;
        if nans(a, b, double, 8) {
            proof {
                lemma_double_skipped(a@, b@, i as nat);
            }
            i = double + 8;
        } else if nans(a, b, word, 4) {
            proof {
                lemma_single_skipped(a@, b@, i as nat);
            }
            i = word + 4;
        } else {
            return Some(i);
        }
    }
    None
}

/// two sets of VFP registers hold the same values, where two NaNs count as
/// the same.
pub open spec fn vfp_alike(a: Seq<u32>, b: Seq<u32>) -> bool {
    forall|d: int| 0 <= d < 16 ==> #[trigger] pair_alike(a, b, d)
}

/// the two registers of a double hold the same values.
pub open spec fn pair_alike(a: Seq<u32>, b: Seq<u32>, d: int) -> bool {
    ||| is_nan64(double_of(a, d)) && is_nan64(double_of(b, d))
    ||| single_alike(a[2 * d], b[2 * d]) && single_alike(a[2 * d + 1], b[2 * d + 1])
}

/// the bits of a double, its low word in the first of two singles.
pub open spec fn double_of(registers: Seq<u32>, d: int) -> u64 {
    (registers[2 * d] + registers[2 * d + 1] * 0x1_0000_0000) as u64
}

/// two registers hold the same value, where two NaNs count as the same.
pub open spec fn single_alike(a: u32, b: u32) -> bool {
    a == b || (is_nan32(a) && is_nan32(b))
}

fn same_single(a: u32, b: u32) -> (same: bool)
    ensures
        same == single_alike(a, b),
{
    a == b || (nan32(a) && nan32(b))
}

/// whether two sets of VFP registers hold the same values, where two NaNs
/// count as the same. the compilers on each side are free to pick which NaN
/// comes out of an operation, and so is the hardware.
pub fn same_vfp(a: &[u32], b: &[u32]) -> (same: bool)
    requires
        a@.len() == 32,
        b@.len() == 32,
    ensures
        same == vfp_alike(a@, b@),
{
    for d in 0..16usize
        invariant
            a@.len() == 32,
            b@.len() == 32,
            forall|e: int| 0 <= e < d ==> #[trigger] pair_alike(a@, b@, e),
    {
        let mine = a[2 * d] as u64 + a[2 * d + 1] as u64 * 0x1_0000_0000;
        let theirs = b[2 * d] as u64 + b[2 * d + 1] as u64 * 0x1_0000_0000;
        let same = (nan64(mine) && nan64(theirs)) || (same_single(a[2 * d], b[2 * d])
            && same_single(a[2 * d + 1], b[2 * d + 1]));
        assert(mine == double_of(a@, d as int));
        assert(theirs == double_of(b@, d as int));
        assert(same == pair_alike(a@, b@, d as int));
        if !same {
            return false;
        }
    }
    true
}

/// xorshift, enough to make up states.
pub struct Random(pub u64);

/// the state after one more number.
pub open spec fn stirred(state: u64) -> u64 {
    let a = state ^ (state << 13);
    let b = a ^ (a >> 7);
    b ^ (b << 17)
}

/// the number a state stands for.
pub open spec fn number_of(state: u64) -> u32 {
    (state >> 16) as u32
}

/// an aligned address in the heap.
pub open spec fn heap_address(number: u32) -> u32 {
    ((HEAP + number % ((HEAP_SIZE - 0x1000) as u32)) as u32) & !3
}

/// a made up pointer is aligned and well inside the heap.
pub proof fn law_heap_pointer(number: u32)
    ensures
        HEAP <= heap_address(number) < HEAP + HEAP_SIZE - 0x1000,
        heap_address(number) % 4 == 0,
{
    let address = (HEAP + number % ((HEAP_SIZE - 0x1000) as u32)) as u32;
    assert(address >= 0x0800_0000 ==> address & !3 >= 0x0800_0000) by (bit_vector);
    assert(address & !3 <= address && (address & !3) % 4 == 0) by (bit_vector);
}

impl Random {
    pub fn next(&mut self) -> (number: u32)
        ensures
            final(self).0 == stirred(old(self).0),
            number == number_of(stirred(old(self).0)),
    {
        let a = self.0 ^ (self.0 << 13);
        let b = a ^ (a >> 7);
        self.0 = b ^ (b << 17);
        (self.0 >> 16) as u32
    }

    pub fn heap_pointer(&mut self) -> (pointer: u32)
        ensures
            final(self).0 == stirred(old(self).0),
            pointer == heap_address(number_of(stirred(old(self).0))),
    {
        (HEAP + self.next() % (HEAP_SIZE - 0x1000)) & !3
    }
}

/// a word of the heap, a pointer into it every so often.
pub open spec fn heap_word(state: u64) -> u32 {
    let value = number_of(stirred(stirred(state)));
    if number_of(stirred(state)) % 4 == 0 {
        heap_address(value)
    } else {
        value
    }
}

/// the state after count pairs of numbers.
pub open spec fn stirred_pairs(state: u64, count: nat) -> u64
    decreases count,
{
    if count == 0 {
        state
    } else {
        stirred(stirred(stirred_pairs(state, (count - 1) as nat)))
    }
}

/// the first count words of a heap full of made up data.
pub open spec fn heap_bytes(state: u64, count: nat) -> Seq<u8>
    decreases count,
{
    if count == 0 {
        Seq::empty()
    } else {
        heap_bytes(state, (count - 1) as nat) + bytes::le_bytes(
            heap_word(stirred_pairs(state, (count - 1) as nat)),
        )
    }
}

/// the state a heap is made up from.
pub const HEAP_SEED: u64 = 0x9E37_79B9_7F4A_7C15;

fn push_word(out: &mut Vec<u8>, value: u32)
    ensures
        final(out)@ == old(out)@ + bytes::le_bytes(value),
{
    out.push((value % 0x100) as u8);
    out.push((value / 0x100 % 0x100) as u8);
    out.push((value / 0x1_0000 % 0x100) as u8);
    out.push((value / 0x100_0000) as u8);
    assert(out@ =~= old(out)@ + bytes::le_bytes(value));
}

fn make_heap(words: u32) -> (heap: Vec<u8>)
    ensures
        heap@ == heap_bytes(HEAP_SEED, words as nat),
{
    let mut random = Random(HEAP_SEED);
    let mut heap: Vec<u8> = Vec::new();
    assert(heap@ =~= Seq::empty());
    for i in 0..words
        invariant
            random.0 == stirred_pairs(HEAP_SEED, i as nat),
            heap@ == heap_bytes(HEAP_SEED, i as nat),
    {
        let value = if random.next() % 4 == 0 {
            random.heap_pointer()
        } else {
            random.next()
        };
        push_word(&mut heap, value);
    }
    heap
}

pub open spec fn zeros(count: nat) -> Seq<u8> {
    Seq::new(count, |i: int| 0u8)
}

/// mov r0, 0 and bx lr.
pub open spec fn stub_bytes() -> Seq<u8> {
    bytes::le_bytes(0xE3A0_0000) + bytes::le_bytes(0xE12F_FF1E)
}

/// the title's memory, its segments where it expects them plus a stack, a
/// heap and thread local storage full of made up data.
pub fn regions(text: (u32, &[u8]), rodata: (u32, &[u8]), data: (u32, &[u8]), bss: u32) -> (list: Vec<
    Region,
>)
    requires
        data.1@.len() + bss <= usize::MAX,
    ensures
        blocks(list@) == seq![
            (Block { base: text.0, bytes: text.1@, writable: false }),
            (Block { base: rodata.0, bytes: rodata.1@, writable: false }),
            (Block { base: data.0, bytes: data.1@ + zeros(bss as nat), writable: true }),
            (Block {
                base: HEAP,
                bytes: heap_bytes(HEAP_SEED, (HEAP_SIZE / 4) as nat),
                writable: true,
            }),
            (Block {
                base: (STACK_TOP - STACK_SIZE) as u32,
                bytes: zeros(STACK_SIZE as nat),
                writable: true,
            }),
            (Block { base: TLS, bytes: zeros(PAGE_SIZE as nat), writable: true }),
            (Block { base: IMPORT_STUB, bytes: stub_bytes(), writable: false }),
        ],
{
    let mut data_bytes = bytes::copied(data.1);
    let size = data_bytes.len() + bss as usize;
    data_bytes.resize(size, 0);
    assert(data_bytes@ =~= data.1@ + zeros(bss as nat));
    let mut stub: Vec<u8> = Vec::new();
    push_word(&mut stub, 0xE3A0_0000);
    push_word(&mut stub, 0xE12F_FF1E);
    assert(stub@ =~= stub_bytes());
    let stack = bytes::zeros(STACK_SIZE as usize);
    assert(stack@ =~= zeros(STACK_SIZE as nat));
    let tls = bytes::zeros(PAGE_SIZE as usize);
    assert(tls@ =~= zeros(PAGE_SIZE as nat));
    let mut list: Vec<Region> = Vec::new();
    list.push(Region { base: text.0, bytes: bytes::copied(text.1), writable: false });
    list.push(Region { base: rodata.0, bytes: bytes::copied(rodata.1), writable: false });
    list.push(Region { base: data.0, bytes: data_bytes, writable: true });
    list.push(Region { base: HEAP, bytes: make_heap(HEAP_SIZE / 4), writable: true });
    list.push(Region { base: STACK_TOP - STACK_SIZE, bytes: stack, writable: true });
    list.push(Region { base: TLS, bytes: tls, writable: true });
    list.push(Region { base: IMPORT_STUB, bytes: stub, writable: false });
    assert(blocks(list@) =~= seq![
        (Block { base: text.0, bytes: text.1@, writable: false }),
        (Block { base: rodata.0, bytes: rodata.1@, writable: false }),
        (Block { base: data.0, bytes: data.1@ + zeros(bss as nat), writable: true }),
        (Block {
            base: HEAP,
            bytes: heap_bytes(HEAP_SEED, (HEAP_SIZE / 4) as nat),
            writable: true,
        }),
        (Block {
            base: (STACK_TOP - STACK_SIZE) as u32,
            bytes: zeros(STACK_SIZE as nat),
            writable: true,
        }),
        (Block { base: TLS, bytes: zeros(PAGE_SIZE as nat), writable: true }),
        (Block { base: IMPORT_STUB, bytes: stub_bytes(), writable: false }),
    ]);
    list
}

/// the state a function starts from.
pub struct Start {
    /// r0 to r15.
    pub registers: Vec<u32>,
    pub thumb: bool,
    pub n: bool,
    pub z: bool,
    pub c: bool,
    pub v: bool,
    /// s0 to s31, in hundredths above a hundred below zero.
    pub singles: Vec<u32>,
}

/// a register to start with, a pointer, a small number or anything.
pub open spec fn drawn_register(state: u64) -> u32 {
    let value = number_of(stirred(stirred(state)));
    let kind = number_of(stirred(state)) % 4;
    if kind == 0 || kind == 1 {
        heap_address(value)
    } else if kind == 2 {
        value % 256
    } else {
        value
    }
}

/// the state that the numbers for a function start from.
pub open spec fn function_seed(function: u32) -> u64 {
    0x5DEE_CE66_D000_0000u64 ^ (function as u64)
}

/// r0 to r12 to start with.
pub open spec fn drawn_registers(function: u32) -> Seq<u32> {
    Seq::new(13, |i: int| drawn_register(stirred_pairs(function_seed(function), i as nat)))
}

/// the state after count numbers.
pub open spec fn stirred_times(state: u64, count: nat) -> u64
    decreases count,
{
    if count == 0 {
        state
    } else {
        stirred(stirred_times(state, (count - 1) as nat))
    }
}

/// the made up state that function, bit 0 set for Thumb, starts from.
pub fn start(function: u32) -> (start: Start)
    ensures
        ({
            let drawn = stirred_pairs(function_seed(function), 13);
            let flags = number_of(stirred(drawn));
            &&& start.registers@ == drawn_registers(function) + seq![
                (STACK_TOP - 0x1000) as u32,
                RETURN,
                function & !1,
            ]
            &&& start.thumb == (function & 1 != 0)
            &&& start.n == (flags & 1 != 0)
            &&& start.z == (flags & 2 != 0)
            &&& start.c == (flags & 4 != 0)
            &&& start.v == (flags & 8 != 0)
            &&& start.singles@ == Seq::new(
                32,
                |i: int| number_of(stirred_times(drawn, (i + 2) as nat)) % 20_000,
            )
        }),
{
    let seed = 0x5DEE_CE66_D000_0000u64 ^ (function as u64);
    let mut random = Random(seed);
    let mut registers: Vec<u32> = Vec::new();
    for i in 0..13u32
        invariant
            seed == function_seed(function),
            random.0 == stirred_pairs(seed, i as nat),
            registers@ =~= Seq::new(i as nat, |j: int| drawn_register(stirred_pairs(seed, j as nat))),
    {
        let kind = random.next() % 4;
        let value = if kind == 0 || kind == 1 {
            random.heap_pointer()
        } else if kind == 2 {
            random.next() % 256
        } else {
            random.next()
        };
        registers.push(value);
    }
    registers.push(STACK_TOP - 0x1000);
    registers.push(RETURN);
    registers.push(function & !1);
    assert(registers@ =~= drawn_registers(function) + seq![
        (STACK_TOP - 0x1000) as u32,
        RETURN,
        function & !1,
    ]);
    let ghost drawn = random.0;
    let flags = random.next();
    let mut singles: Vec<u32> = Vec::new();
    assert(random.0 == stirred_times(drawn, 1)) by {
        reveal_with_fuel(stirred_times, 2);
    }
    for i in 0..32u32
        invariant
            random.0 == stirred_times(drawn, (i + 1) as nat),
            singles@ =~= Seq::new(
                i as nat,
                |j: int| number_of(stirred_times(drawn, (j + 2) as nat)) % 20_000,
            ),
    {
        singles.push(random.next() % 20_000);
    }
    Start {
        registers,
        thumb: function & 1 != 0,
        n: flags & 1 != 0,
        z: flags & 2 != 0,
        c: flags & 4 != 0,
        v: flags & 8 != 0,
        singles,
    }
}

/// why a run stopped.
#[derive(Debug)]
pub enum Stop {
    Returned,
    Svc(u32),
    Limit,
    Other(String),
}

/// why a run stopped, as mathematical values.
pub enum Stopped {
    Returned,
    Svc(u32),
    Limit,
    Other(Seq<char>),
}

impl View for Stop {
    type V = Stopped;

    open spec fn view(&self) -> Stopped {
        match self {
            Stop::Returned => Stopped::Returned,
            Stop::Svc(number) => Stopped::Svc(*number),
            Stop::Limit => Stopped::Limit,
            Stop::Other(reason) => Stopped::Other(reason@),
        }
    }
}

impl Stop {
    /// whether two runs stopped for the same reason.
    pub fn same(&self, other: &Stop) -> (same: bool)
        ensures
            same == (self@ == other@),
    {
        match (self, other) {
            (Stop::Returned, Stop::Returned) => true,
            (Stop::Limit, Stop::Limit) => true,
            (Stop::Svc(a), Stop::Svc(b)) => *a == *b,
            (Stop::Other(a), Stop::Other(b)) => *a == *b,
            _ => false,
        }
    }

    fn is_limit(&self) -> (answer: bool)
        ensures
            answer == (self@ == Stopped::Limit),
    {
        match self {
            Stop::Limit => true,
            _ => false,
        }
    }
}

/// whether a function is back where it was called from.
pub fn returned(pc: u32, thumb: bool) -> (answer: bool)
    ensures
        answer == (pc == RETURN && !thumb),
{
    pc == RETURN && !thumb
}

/// why the interpreter stops before its next instruction, having run steps
/// of them, if it does.
pub fn before_step(steps: i32, pc: u32, thumb: bool) -> (stop: Option<Stop>)
    ensures
        stop == (if steps >= LIMIT {
            Some(Stop::Limit)
        } else if pc == RETURN && !thumb {
            Some(Stop::Returned)
        } else {
            None
        }),
{
    if steps >= LIMIT {
        Some(Stop::Limit)
    } else if returned(pc, thumb) {
        Some(Stop::Returned)
    } else {
        None
    }
}

/// what the host of recompiled code does next.
#[derive(Debug)]
pub enum Turn {
    Stop(Stop),
    /// look up what can run from this address, and have the interpreter run
    /// one instruction when nothing can.
    Run(u32),
}

/// what the host does next, with the code about to run from pc.
pub fn turn(pc: u32, thumb: bool, budget: i32) -> (turn: Turn)
    ensures
        turn == (if pc == RETURN && !thumb {
            Turn::Stop(Stop::Returned)
        } else if budget <= 0 {
            Turn::Stop(Stop::Limit)
        } else if thumb {
            Turn::Run(pc | 1)
        } else {
            Turn::Run(pc)
        }),
{
    if returned(pc, thumb) {
        Turn::Stop(Stop::Returned)
    } else if budget <= 0 {
        Turn::Stop(Stop::Limit)
    } else if thumb {
        Turn::Run(pc | 1)
    } else {
        Turn::Run(pc)
    }
}

/// why the host stops after code returned with exit, if it does.
pub fn after_code(exit: u32, svc: u32) -> (stop: Option<Stop>)
    ensures
        stop == (if exit == abi::EXIT_SVC {
            Some(Stop::Svc(svc))
        } else if exit == abi::EXIT_BUDGET {
            Some(Stop::Limit)
        } else {
            None
        }),
{
    if exit == abi::EXIT_SVC {
        Some(Stop::Svc(svc))
    } else if exit == abi::EXIT_BUDGET {
        Some(Stop::Limit)
    } else {
        None
    }
}

/// whether code has to return to the host after the interpreter ran the
/// instruction at address for it, because it stopped or went elsewhere.
pub fn unwinds(stopped: bool, address: u32, pc: u32, thumb: bool) -> (answer: bool)
    ensures
        answer == (stopped || pc != arm::displaced(
            address,
            if thumb {
                2
            } else {
                4
            },
        )),
{
    let step: u32 = if thumb {
        2
    } else {
        4
    };
    stopped || pc != address.wrapping_add(step)
}

/// how the functions of a program did.
pub struct Report {
    /// instructions run as recompiled code, through the fallback and in
    /// the interpreter alone.
    pub native: u64,
    pub fallbacks: u64,
    pub interpreted: u64,
    pub tested: usize,
    pub returned: usize,
    pub svc: usize,
    pub stuck: usize,
    pub other: usize,
    pub mismatched: usize,
}

impl Default for Report {
    fn default() -> (report: Report)
        ensures
            report == Report::empty(),
    {
        Report {
            native: 0,
            fallbacks: 0,
            interpreted: 0,
            tested: 0,
            returned: 0,
            svc: 0,
            stuck: 0,
            other: 0,
            mismatched: 0,
        }
    }
}

/// a and b together, as far as the counter goes.
pub open spec fn summed(a: u64, b: u64) -> u64 {
    if a + b <= u64::MAX {
        (a + b) as u64
    } else {
        u64::MAX
    }
}

/// a and b together, as far as the counter goes.
pub open spec fn counted(a: usize, b: usize) -> usize {
    if a + b <= usize::MAX {
        (a + b) as usize
    } else {
        usize::MAX
    }
}

pub fn sum(a: u64, b: u64) -> (total: u64)
    ensures
        total == summed(a, b),
{
    match a.checked_add(b) {
        Some(total) => total,
        None => u64::MAX,
    }
}

pub fn count(a: usize, b: usize) -> (total: usize)
    ensures
        total == counted(a, b),
{
    match a.checked_add(b) {
        Some(total) => total,
        None => usize::MAX,
    }
}

/// what came of a function that ran both ways.
#[derive(Debug, Clone, Copy, PartialEq, Eq, Structural)]
pub enum Verdict {
    /// one of the two did not stop.
    Stuck,
    /// the two differ, which is only shown for the first few.
    Mismatched { shown: bool },
    Agreed,
}

impl Report {
    /// the two reports together.
    pub open spec fn plus(self, other: Report) -> Report {
        Report {
            native: summed(self.native, other.native),
            fallbacks: summed(self.fallbacks, other.fallbacks),
            interpreted: summed(self.interpreted, other.interpreted),
            tested: counted(self.tested, other.tested),
            returned: counted(self.returned, other.returned),
            svc: counted(self.svc, other.svc),
            stuck: counted(self.stuck, other.stuck),
            other: counted(self.other, other.other),
            mismatched: counted(self.mismatched, other.mismatched),
        }
    }

    pub fn add(&mut self, other: &Report)
        ensures
            *final(self) == old(self).plus(*other),
    {
        self.native = sum(self.native, other.native);
        self.fallbacks = sum(self.fallbacks, other.fallbacks);
        self.interpreted = sum(self.interpreted, other.interpreted);
        self.tested = count(self.tested, other.tested);
        self.returned = count(self.returned, other.returned);
        self.svc = count(self.svc, other.svc);
        self.stuck = count(self.stuck, other.stuck);
        self.other = count(self.other, other.other);
        self.mismatched = count(self.mismatched, other.mismatched);
    }

    /// the report with one more run in it, budget being what was left and
    /// interpreted and fallbacks what the interpreter ran of it.
    pub open spec fn with_run(self, budget: i32, interpreted: u64, fallbacks: u64) -> Report {
        Report {
            native: summed(self.native, native_count(budget, interpreted, fallbacks)),
            fallbacks: summed(self.fallbacks, fallbacks),
            interpreted: summed(self.interpreted, interpreted),
            tested: counted(self.tested, 1),
            ..self
        }
    }

    /// counts a run.
    pub fn ran(&mut self, budget: i32, interpreted: u64, fallbacks: u64)
        ensures
            *final(self) == old(self).with_run(budget, interpreted, fallbacks),
    {
        self.tested = count(self.tested, 1);
        self.native = sum(self.native, native(budget, interpreted, fallbacks));
        self.fallbacks = sum(self.fallbacks, fallbacks);
        self.interpreted = sum(self.interpreted, interpreted);
    }

    /// what came of a function that stopped with expected and got, with or
    /// without differences.
    pub open spec fn judged(self, expected: Stopped, got: Stopped, differs: bool) -> (
        Report,
        Verdict,
    ) {
        if expected == Stopped::Limit || got == Stopped::Limit {
            (Report { stuck: counted(self.stuck, 1), ..self }, Verdict::Stuck)
        } else if differs || expected != got {
            let mismatched = counted(self.mismatched, 1);
            (
                Report { mismatched, ..self },
                Verdict::Mismatched { shown: mismatched <= 20 },
            )
        } else {
            (
                match expected {
                    Stopped::Returned => Report { returned: counted(self.returned, 1), ..self },
                    Stopped::Svc(_) => Report { svc: counted(self.svc, 1), ..self },
                    _ => Report { other: counted(self.other, 1), ..self },
                },
                Verdict::Agreed,
            )
        }
    }

    /// counts what came of a function.
    pub fn judge(&mut self, expected: &Stop, got: &Stop, differs: bool) -> (verdict: Verdict)
        ensures
            (*final(self), verdict) == old(self).judged(expected@, got@, differs),
    {
        if expected.is_limit() || got.is_limit() {
            self.stuck = count(self.stuck, 1);
            return Verdict::Stuck;
        }
        if differs || !expected.same(got) {
            self.mismatched = count(self.mismatched, 1);
            return Verdict::Mismatched { shown: self.mismatched <= 20 };
        }
        match expected {
            Stop::Returned => {
                self.returned = count(self.returned, 1);
            },
            Stop::Svc(_) => {
                self.svc = count(self.svc, 1);
            },
            _ => {
                self.other = count(self.other, 1);
            },
        }
        Verdict::Agreed
    }
}

impl Report {
    /// how many functions something came of.
    pub open spec fn judgements(self) -> int {
        self.returned + self.svc + self.stuck + self.other + self.mismatched
    }
}

/// every function that is tested counts towards exactly one outcome.
pub proof fn law_verdicts_add_up(
    report: Report,
    budget: i32,
    interpreted: u64,
    fallbacks: u64,
    expected: Stopped,
    got: Stopped,
    differs: bool,
)
    requires
        report.judgements() == report.tested,
        report.tested < usize::MAX,
    ensures
        ({
            let ran = report.with_run(budget, interpreted, fallbacks);
            let (after, verdict) = ran.judged(expected, got, differs);
            &&& after.tested == report.tested + 1
            &&& after.judgements() == after.tested
            &&& verdict is Agreed <==> after.stuck == report.stuck && after.mismatched
                == report.mismatched
        }),
{
}

impl Report {
    /// a report with nothing in it.
    pub open spec fn empty() -> Report {
        Report {
            native: 0,
            fallbacks: 0,
            interpreted: 0,
            tested: 0,
            returned: 0,
            svc: 0,
            stuck: 0,
            other: 0,
            mismatched: 0,
        }
    }
}

/// how a function that ran both ways came out, budget being what was left on
/// the recompiled side and interpreted and fallbacks what the interpreter ran
/// there.
pub struct Outcome {
    pub budget: i32,
    pub interpreted: u64,
    pub fallbacks: u64,
    pub expected: Stopped,
    pub got: Stopped,
    pub differs: bool,
}

impl Outcome {
    /// report with this outcome counted.
    pub open spec fn counted_in(self, report: Report) -> Report {
        report.with_run(self.budget, self.interpreted, self.fallbacks).judged(
            self.expected,
            self.got,
            self.differs,
        ).0
    }
}

/// report with the first count of outcomes counted, one after another.
pub open spec fn tally(report: Report, outcomes: Seq<Outcome>, count: nat) -> Report
    decreases count,
{
    if count == 0 {
        report
    } else {
        outcomes[count - 1].counted_in(tally(report, outcomes, (count - 1) as nat))
    }
}

/// counting a function adds the same to every report, which is what it adds to
/// an empty one.
pub proof fn law_outcomes_add(report: Report, outcome: Outcome)
    ensures
        outcome.counted_in(report) == report.plus(outcome.counted_in(Report::empty())),
{
}

/// reports add up in any order of adding.
pub proof fn law_reports_add(a: Report, b: Report, c: Report)
    ensures
        a.plus(b).plus(c) == a.plus(b.plus(c)),
        a.plus(Report::empty()) == a,
        Report::empty().plus(a) == a,
{
}

/// the report on two lists of functions is the sum of the reports on each.
pub proof fn law_lists_add(first: Seq<Outcome>, second: Seq<Outcome>)
    ensures
        tally(Report::empty(), first + second, (first + second).len()) == tally(
            Report::empty(),
            first,
            first.len(),
        ).plus(tally(Report::empty(), second, second.len())),
{
    lemma_lists_add(first, second, second.len());
}

proof fn lemma_lists_add(first: Seq<Outcome>, second: Seq<Outcome>, count: nat)
    requires
        count <= second.len(),
    ensures
        tally(Report::empty(), first + second, first.len() + count) == tally(
            Report::empty(),
            first,
            first.len(),
        ).plus(tally(Report::empty(), second, count)),
    decreases count,
{
    let before = tally(Report::empty(), first, first.len());
    if count == 0 {
        lemma_tally_of_part(first, second, first.len());
        law_reports_add(before, before, before);
    } else {
        lemma_lists_add(first, second, (count - 1) as nat);
        let outcome = second[count - 1];
        let so_far = tally(Report::empty(), second, (count - 1) as nat);
        assert((first + second)[first.len() + count - 1] == outcome);
        law_outcomes_add(before.plus(so_far), outcome);
        law_outcomes_add(so_far, outcome);
        law_reports_add(before, so_far, outcome.counted_in(Report::empty()));
    }
}

proof fn lemma_tally_of_part(first: Seq<Outcome>, second: Seq<Outcome>, count: nat)
    requires
        count <= first.len(),
    ensures
        tally(Report::empty(), first + second, count) == tally(Report::empty(), first, count),
    decreases count,
{
    if count > 0 {
        lemma_tally_of_part(first, second, (count - 1) as nat);
        assert((first + second)[count - 1] == first[count - 1]);
    }
}

/// how much of a run was recompiled code.
pub open spec fn native_count(budget: i32, interpreted: u64, fallbacks: u64) -> u64 {
    let spent = LIMIT - budget;
    if spent < interpreted + fallbacks {
        0
    } else {
        (spent - (interpreted + fallbacks)) as u64
    }
}

/// how much of a run was recompiled code, budget being what was left and
/// interpreted and fallbacks what the interpreter ran of it.
pub fn native(budget: i32, interpreted: u64, fallbacks: u64) -> (count: u64)
    ensures
        count == native_count(budget, interpreted, fallbacks),
{
    if budget > LIMIT {
        return 0;
    }
    let spent = (LIMIT as i64 - budget as i64) as u64;
    let others = sum(interpreted, fallbacks);
    if spent < others {
        0
    } else {
        spent - others
    }
}

/// what one side of a comparison ended with.
pub struct State {
    /// r0 to r15.
    pub registers: Vec<u32>,
    /// n, z, c, v, q and thumb, each 0 or 1.
    pub flags: Vec<u8>,
    pub ge: u8,
    /// s0 to s31.
    pub vfp: Vec<u32>,
    pub fpscr: u32,
    pub faults: u64,
}

impl State {
    /// everything is there.
    pub open spec fn wf(self) -> bool {
        self.registers@.len() == 16 && self.flags@.len() == 6 && self.vfp@.len() == 32
    }
}

/// the name of a flag.
pub open spec fn flag_text(number: int) -> Seq<char> {
    if number == 0 {
        "n"@
    } else if number == 1 {
        "z"@
    } else if number == 2 {
        "c"@
    } else if number == 3 {
        "v"@
    } else if number == 4 {
        "q"@
    } else {
        "thumb"@
    }
}

fn flag_name(number: usize) -> (name: &'static str)
    ensures
        name@ == flag_text(number as int),
{
    if number == 0 {
        "n"
    } else if number == 1 {
        "z"
    } else if number == 2 {
        "c"
    } else if number == 3 {
        "v"
    } else if number == 4 {
        "q"
    } else {
        "thumb"
    }
}

/// the registers among the first count that differ. one that differs may be
/// a NaN moved out of a VFP register.
pub open spec fn register_differences(a: Seq<u32>, b: Seq<u32>, count: nat) -> Seq<Seq<char>>
    decreases count,
{
    if count == 0 {
        Seq::empty()
    } else {
        let before = register_differences(a, b, (count - 1) as nat);
        let i = count - 1;
        if single_alike(a[i], b[i]) {
            before
        } else {
            before.push(
                text::fill(
                    "r{} {} against {}"@,
                    seq![
                        text::dec(i as nat),
                        text::hex_wide(a[i] as nat, 8),
                        text::hex_wide(b[i] as nat, 8),
                    ],
                ),
            )
        }
    }
}

/// found with the flags among the first count that differ.
pub open spec fn flag_differences(
    found: Seq<Seq<char>>,
    a: Seq<u8>,
    b: Seq<u8>,
    count: nat,
) -> Seq<Seq<char>>
    decreases count,
{
    if count == 0 {
        found
    } else {
        let before = flag_differences(found, a, b, (count - 1) as nat);
        let i = count - 1;
        if a[i] == b[i] {
            before
        } else {
            before.push(
                text::fill(
                    "{} {} against {}"@,
                    seq![flag_text(i), text::dec(a[i] as nat), text::dec(b[i] as nat)],
                ),
            )
        }
    }
}

/// everything that differs between two sides, memory being the first address
/// that does.
pub open spec fn all_differences(a: State, b: State, memory: Option<u32>) -> Seq<Seq<char>> {
    let found = register_differences(a.registers@, b.registers@, 16);
    let found = flag_differences(found, a.flags@, b.flags@, 6);
    let found = if a.ge == b.ge {
        found
    } else {
        found.push(
            text::fill("ge {} against {}"@, seq![text::hex(a.ge as nat), text::hex(b.ge as nat)]),
        )
    };
    let found = if vfp_alike(a.vfp@, b.vfp@) && a.fpscr == b.fpscr {
        found
    } else {
        found.push("vfp state"@)
    };
    let found = match memory {
        Some(address) => found.push(
            text::fill("memory at {}"@, seq![text::hex_wide(address as nat, 8)]),
        ),
        None => found,
    };
    if a.faults == b.faults {
        found
    } else {
        found.push(
            text::fill(
                "{} faults against {}"@,
                seq![text::dec(a.faults as nat), text::dec(b.faults as nat)],
            ),
        )
    }
}

pub open spec fn lines(found: Seq<String>) -> Seq<Seq<char>> {
    found.map_values(|line: String| line@)
}

fn push_line(found: &mut Vec<String>, line: String)
    ensures
        lines(final(found)@) == lines(old(found)@).push(line@),
{
    let ghost before = lines(found@);
    found.push(line);
    assert(lines(found@) =~= before.push(line@));
}

/// everything that differs between the interpreter's side and the recompiled
/// one, memory being the first address that does.
pub fn differences(a: &State, b: &State, memory: Option<u32>) -> (found: Vec<String>)
    requires
        a.wf(),
        b.wf(),
    ensures
        lines(found@) == all_differences(*a, *b, memory),
{
    let mut found: Vec<String> = Vec::new();
    assert(lines(found@) =~= Seq::empty());
    for i in 0..16usize
        invariant
            a.wf(),
            b.wf(),
            lines(found@) == register_differences(a.registers@, b.registers@, i as nat),
    {
        // a NaN moved out of a VFP register
        if !same_single(a.registers[i], b.registers[i]) {
            push_line(
                &mut found,
                text::form3(
                    "r{} {} against {}",
                    text::decimal(i as u32).as_str(),
                    text::word(a.registers[i]).as_str(),
                    text::word(b.registers[i]).as_str(),
                ),
            );
        }
    }
    let ghost begun = lines(found@);
    for i in 0..6usize
        invariant
            a.wf(),
            b.wf(),
            lines(found@) == flag_differences(begun, a.flags@, b.flags@, i as nat),
    {
        if a.flags[i] != b.flags[i] {
            push_line(
                &mut found,
                text::form3(
                    "{} {} against {}",
                    flag_name(i),
                    text::decimal(a.flags[i] as u32).as_str(),
                    text::decimal(b.flags[i] as u32).as_str(),
                ),
            );
        }
    }
    if a.ge != b.ge {
        push_line(
            &mut found,
            text::form2(
                "ge {} against {}",
                text::hexadecimal(a.ge as u32).as_str(),
                text::hexadecimal(b.ge as u32).as_str(),
            ),
        );
    }
    if !same_vfp(a.vfp.as_slice(), b.vfp.as_slice()) || a.fpscr != b.fpscr {
        push_line(&mut found, "vfp state".to_owned());
    }
    if let Some(address) = memory {
        push_line(&mut found, text::form1("memory at {}", text::word(address).as_str()));
    }
    if a.faults != b.faults {
        push_line(
            &mut found,
            text::form2(
                "{} faults against {}",
                text::decimal64(a.faults).as_str(),
                text::decimal64(b.faults).as_str(),
            ),
        );
    }
    found
}

/// two sides ended with the same state, where two NaNs count as the same.
pub open spec fn ended_alike(a: State, b: State, memory: Option<u32>) -> bool {
    &&& forall|i: int|
        0 <= i < 16 ==> single_alike(#[trigger] a.registers@[i], b.registers@[i])
    &&& forall|i: int| 0 <= i < 6 ==> #[trigger] a.flags@[i] == b.flags@[i]
    &&& a.ge == b.ge
    &&& vfp_alike(a.vfp@, b.vfp@)
    &&& a.fpscr == b.fpscr
    &&& memory is None
    &&& a.faults == b.faults
}

/// there is nothing to say exactly when two sides ended with the same
/// registers, flags and memory.
pub proof fn law_differences(a: State, b: State, memory: Option<u32>)
    ensures
        all_differences(a, b, memory).len() == 0 <==> ended_alike(a, b, memory),
{
    lemma_register_differences(a.registers@, b.registers@, 16);
    let found = register_differences(a.registers@, b.registers@, 16);
    lemma_flag_differences(found, a.flags@, b.flags@, 6);
}

proof fn lemma_register_differences(a: Seq<u32>, b: Seq<u32>, count: nat)
    ensures
        register_differences(a, b, count).len() == 0 <==> forall|i: int|
            0 <= i < count ==> single_alike(#[trigger] a[i], b[i]),
    decreases count,
{
    if count > 0 {
        lemma_register_differences(a, b, (count - 1) as nat);
        assert(single_alike(a[count - 1], b[count - 1]) || register_differences(a, b, count).len()
            > 0);
    }
}

proof fn lemma_flag_differences(found: Seq<Seq<char>>, a: Seq<u8>, b: Seq<u8>, count: nat)
    ensures
        flag_differences(found, a, b, count).len() == 0 <==> found.len() == 0 && forall|i: int|
            0 <= i < count ==> #[trigger] a[i] == b[i],
    decreases count,
{
    if count > 0 {
        lemma_flag_differences(found, a, b, (count - 1) as nat);
        assert(a[count - 1] == b[count - 1] || flag_differences(found, a, b, count).len() > 0);
    }
}

proof fn lemma_difference_from(a: Seq<u8>, b: Seq<u8>, i: nat)
    ensures
        match difference_from(a, b, i) {
            Some(at) => i <= at < a.len() && !byte_alike(a, b, at as int),
            None => forall|j: int| i <= j < a.len() ==> #[trigger] byte_alike(a, b, j),
        },
    decreases a.len() - i,
{
    if i < a.len() {
        lemma_difference_from(a, b, i + 1);
        if byte_alike(a, b, i as int) && difference_from(a, b, i) is None {
            assert forall|j: int| i <= j < a.len() implies #[trigger] byte_alike(a, b, j) by {
                if j > i {
                    assert(i + 1 <= j);
                }
            }
        }
    }
}

/// the byte at place in a region is the same in both, two NaNs not counting.
pub open spec fn place_alike(a: Space, b: Space, region: int, place: int) -> bool {
    byte_alike(a.blocks[region].bytes, b.blocks[region].bytes, place)
}

/// there is no difference from a region on exactly when every byte that can
/// be written is alike in both.
pub proof fn law_no_difference(a: Space, b: Space, number: nat)
    ensures
        difference(a, b, number) is None <==> forall|region: int, place: int|
            number <= region < a.blocks.len() && a.blocks[region].writable && 0 <= place
                < a.blocks[region].bytes.len() ==> #[trigger] place_alike(a, b, region, place),
    decreases a.blocks.len() - number,
{
    if number < a.blocks.len() {
        let mine = a.blocks[number as int].bytes;
        let theirs = b.blocks[number as int].bytes;
        law_no_difference(a, b, number + 1);
        lemma_difference_from(mine, theirs, 0);
        if difference(a, b, number) is None {
            assert forall|region: int, place: int|
                number <= region < a.blocks.len() && a.blocks[region].writable && 0 <= place
                    < a.blocks[region].bytes.len() implies #[trigger] place_alike(
                a,
                b,
                region,
                place,
            ) by {
                if region == number {
                    assert(byte_alike(mine, theirs, place));
                }
            }
        } else if a.blocks[number as int].writable {
            if let Some(at) = difference_from(mine, theirs, 0) {
                assert(!place_alike(a, b, number as int, at as int));
            }
        }
    }
}

/// two copies of a memory have no difference.
pub proof fn law_copies_have_no_difference(a: Space, b: Space)
    requires
        a.blocks == b.blocks,
    ensures
        difference(a, b, 0) is None,
{
    law_no_difference(a, b, 0);
}

impl Space {
    /// the space is pristine but for what was written where that can be, and
    /// for its faults.
    pub open spec fn stems_from(self, pristine: Space) -> bool {
        &&& self.blocks.len() == pristine.blocks.len()
        &&& forall|i: int|
            0 <= i < self.blocks.len() ==> {
                let (mine, first) = (#[trigger] self.blocks[i], pristine.blocks[i]);
                &&& mine.base == first.base
                &&& mine.writable == first.writable
                &&& mine.bytes.len() == first.bytes.len()
                &&& !mine.writable ==> mine.bytes == first.bytes
            }
    }
}

/// whatever was read and written, a space still stems from the one it was
/// copied from.
pub proof fn law_accesses_stem_from(space: Space, pristine: Space, address: u32, value: u8)
    requires
        space.stems_from(pristine),
        space.paged(),
    ensures
        space.after_read(address).stems_from(pristine),
        space.after_write(address, value).stems_from(pristine),
{
    reveal(Space::after_write);
    lemma_mapped(space.blocks, address, true, space.blocks.len());
    if let Some(i) = mapped(space.blocks, address, true, space.blocks.len()) {
        lemma_slot(space.blocks[i], address);
        let after = space.after_write(address, value);
        assert forall|j: int| 0 <= j < after.blocks.len() implies ({
            let (mine, first) = (#[trigger] after.blocks[j], pristine.blocks[j]);
            &&& mine.base == first.base
            &&& mine.writable == first.writable
            &&& mine.bytes.len() == first.bytes.len()
            &&& !mine.writable ==> mine.bytes == first.bytes
        }) by {
            let before = space.blocks[j];
        }
    }
}

/// a space that is restored from the one it stems from is that one again,
/// without a fault.
pub proof fn law_restored_is_pristine(space: Space, pristine: Space)
    requires
        space.stems_from(pristine),
    ensures
        space.restored(pristine).blocks == pristine.blocks,
        space.restored(pristine).faults == 0,
{
    let restored = space.restored(pristine);
    assert forall|i: int| 0 <= i < restored.blocks.len() implies #[trigger] restored.blocks[i]
        == pristine.blocks[i] by {
        let mine = space.blocks[i];
    }
    assert(restored.blocks =~= pristine.blocks);
}

/// a byte written where the same region is for reading reads back, and every
/// other byte stays.
pub proof fn law_write_reads_back(space: Space, address: u32, value: u8, other: u32)
    requires
        space.paged(),
        mapped(space.blocks, address, true, space.blocks.len()) is Some,
        mapped(space.blocks, address, true, space.blocks.len()) == mapped(
            space.blocks,
            address,
            false,
            space.blocks.len(),
        ),
    ensures
        space.after_write(address, value).byte(address) == Some(value),
        other != address ==> space.after_write(address, value).byte(other) == space.byte(other),
        space.after_write(address, value).faults == space.faults,
{
    reveal(Space::after_write);
    reveal(byte_in);
    let i = mapped(space.blocks, address, true, space.blocks.len())->0;
    let after = space.after_write(address, value);
    lemma_mapped(space.blocks, address, true, space.blocks.len());
    lemma_slot(space.blocks[i], address);
    lemma_mapping_stays(space.blocks, after.blocks, address, space.blocks.len());
    lemma_mapping_stays(space.blocks, after.blocks, other, space.blocks.len());
    lemma_mapped(space.blocks, other, false, space.blocks.len());
    if other != address {
        if let Some(j) = mapped(space.blocks, other, false, space.blocks.len()) {
            lemma_slot(space.blocks[j], other);
            if j == i {
                assert(space.blocks[i].slot(other) != space.blocks[i].slot(address));
            }
        }
    }
}

proof fn lemma_mapping_stays(a: Seq<Block>, b: Seq<Block>, address: u32, count: nat)
    requires
        a.len() == b.len(),
        count <= a.len(),
        forall|i: int|
            0 <= i < a.len() ==> (#[trigger] b[i]).base == a[i].base && b[i].bytes.len()
                == a[i].bytes.len() && b[i].writable == a[i].writable,
    ensures
        mapped(b, address, false, count) == mapped(a, address, false, count),
    decreases count,
{
    if count > 0 {
        assert(b[count - 1].base == a[count - 1].base);
        lemma_mapping_stays(a, b, address, (count - 1) as nat);
    }
}

} // verus!
