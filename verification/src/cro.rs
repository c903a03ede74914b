//! reading CRO modules and the CRS that describes the main executable,
//! straight from their files.

use crate::arm;
use crate::bytes;
use crate::discover;
use crate::discover::{Program, Source};
use crate::image;
use crate::rom;
use crate::text;
use std::collections::BTreeSet;
use vstd::prelude::*;

pub mod laws;

verus! {

broadcast use {vstd::laws_cmp::group_laws_cmp, vstd::std_specs::btree::group_btree_axioms};

#[derive(Debug, Clone, Copy, PartialEq, Eq, Structural)]
pub struct Segment {
    pub offset: u32,
    pub size: u32,
    pub kind: u32,
}

#[derive(Debug, Clone, Copy, PartialEq, Eq, Structural)]
pub struct Relocation {
    /// where the address goes, as a segment tag.
    pub target: u32,
    pub kind: u8,
    /// the segment the address points into.
    pub segment: u32,
    pub addend: u32,
}

impl Relocation {
    /// the relocation stores the address itself rather than an offset or a
    /// branch.
    pub open spec fn absolute(self) -> bool {
        self.kind == 2 || self.kind == 38
    }

    /// whether the relocation stores the address itself rather than an
    /// offset or a branch.
    fn is_absolute(&self) -> (answer: bool)
        ensures
            answer == self.absolute(),
    {
        self.kind == 2 || self.kind == 38
    }
}

pub struct Module {
    pub name: String,
    pub segments: Vec<Segment>,
    /// exported symbols by name, as segment tags.
    pub exports: Vec<(String, u32)>,
    /// exported symbols by index, as segment tags.
    pub indexed_exports: Vec<u32>,
    /// the addresses the module writes into itself when it is loaded.
    pub relocations: Vec<Relocation>,
    /// the places that get the addresses of what it imports, whose segment
    /// field means nothing.
    pub imports: Vec<Relocation>,
    /// what it takes from other modules without a name, as the name of the
    /// module and a segment tag in it.
    pub anonymous_imports: Vec<(String, u32)>,
}

/// a table of fixed size entries is all there.
pub open spec fn present(file: Seq<u8>, offset: u32, count: u32, entry_size: int) -> bool {
    count == 0 || offset + count * entry_size <= file.len()
}

/// the table whose offset and count are in the header at field and right
/// after it is all there.
pub open spec fn table_present(file: Seq<u8>, field: int, entry_size: int) -> bool {
    &&& field + 8 <= file.len()
    &&& present(file, bytes::le32(file, field), bytes::le32(file, field + 4), entry_size)
}

/// file is a module, with all of its tables there.
pub open spec fn is_module(file: Seq<u8>) -> bool {
    &&& file.len() >= 0xC4
    &&& file.subrange(0x80, 0x84) == seq![0x43u8, 0x52u8, 0x4Fu8, 0x30u8]
    &&& table_present(file, 0xC8, 12)
    &&& table_present(file, 0xD0, 8)
    &&& table_present(file, 0xD8, 4)
    &&& table_present(file, 0x128, 12)
    &&& table_present(file, 0xF8, 12)
}

/// the entries of the table whose offset and count are in the header at
/// field, as where each is.
pub open spec fn entries(file: Seq<u8>, field: int, entry_size: int) -> Seq<int> {
    Seq::new(
        bytes::le32(file, field + 4) as nat,
        |i: int| bytes::le32(file, field) + i * entry_size,
    )
}

/// the text at offset, none of it when that is outside.
pub open spec fn text_at(file: Seq<u8>, offset: u32) -> Seq<char> {
    text::zero_ended(
        if offset <= file.len() {
            file.skip(offset as int)
        } else {
            Seq::empty()
        },
    )
}

pub open spec fn segment_at(file: Seq<u8>, at: int) -> Segment {
    Segment {
        offset: bytes::le32(file, at),
        size: bytes::le32(file, at + 4),
        kind: bytes::le32(file, at + 8),
    }
}

pub open spec fn relocation_at(file: Seq<u8>, at: int) -> Relocation {
    Relocation {
        target: bytes::le32(file, at),
        kind: file[at + 4],
        segment: file[at + 5] as u32,
        addend: bytes::le32(file, at + 8),
    }
}

/// a name and a tag each.
pub open spec fn named(list: Seq<(String, u32)>) -> Seq<(Seq<char>, u32)> {
    list.map_values(|entry: (String, u32)| (entry.0@, entry.1))
}

/// what a module takes without a name from the module that the entry at `at`
/// is about, as far as its table is there.
pub open spec fn taken_from(file: Seq<u8>, at: int) -> Seq<(Seq<char>, u32)> {
    let offset = bytes::le32(file, at + 12);
    let count = bytes::le32(file, at + 16);
    if present(file, offset, count, 8) {
        Seq::new(
            count as nat,
            |i: int| (text_at(file, bytes::le32(file, at)), bytes::le32(file, offset + i * 8)),
        )
    } else {
        Seq::empty()
    }
}

/// what a module takes without a name from the first count modules in its
/// table of them.
pub open spec fn taken(file: Seq<u8>, count: nat) -> Seq<(Seq<char>, u32)>
    decreases count,
{
    if count == 0 {
        Seq::empty()
    } else {
        taken(file, (count - 1) as nat) + taken_from(
            file,
            bytes::le32(file, 0xF0) + (count - 1) * 20,
        )
    }
}

/// what a module takes without a name from other modules, nothing when its
/// table of them is not all there.
pub open spec fn all_taken(file: Seq<u8>) -> Seq<(Seq<char>, u32)> {
    if table_present(file, 0xF0, 20) {
        taken(file, bytes::le32(file, 0xF4) as nat)
    } else {
        Seq::empty()
    }
}

impl Module {
    /// the module is what file says.
    pub open spec fn describes(self, file: Seq<u8>) -> bool {
        &&& self.name@ == text_at(file, bytes::le32(file, 0xC0))
        &&& self.segments@ == entries(file, 0xC8, 12).map_values(|at: int| segment_at(file, at))
        &&& named(self.exports@) == entries(file, 0xD0, 8).map_values(
            |at: int| (text_at(file, bytes::le32(file, at)), bytes::le32(file, at + 4)),
        )
        &&& self.indexed_exports@ == entries(file, 0xD8, 4).map_values(
            |at: int| bytes::le32(file, at),
        )
        &&& self.relocations@ == entries(file, 0x128, 12).map_values(
            |at: int| relocation_at(file, at),
        )
        &&& self.imports@ == entries(file, 0xF8, 12).map_values(|at: int| relocation_at(file, at))
        &&& named(self.anonymous_imports@) == all_taken(file)
    }
}

/// the text at offset, none of it when that is outside.
fn cstring(file: &[u8], offset: u32) -> (name: String)
    ensures
        name@ == text_at(file@, offset),
{
    let size = file.len();
    if offset as u64 <= size as u64 {
        assert(file@.subrange(offset as int, size as int) =~= file@.skip(offset as int));
        text::ascii(vstd::slice::slice_subrange(file, offset as usize, size))
    } else {
        let none: Vec<u8> = Vec::new();
        assert(none@ =~= Seq::empty());
        text::ascii(none.as_slice())
    }
}

/// a table of fixed size entries, from the header field holding its offset
/// with its count right after it, as where it is and how many there are.
fn table(file: &[u8], field: usize, entry_size: u64) -> (found: Option<(usize, usize)>)
    requires
        field <= 0x1000,
        1 <= entry_size <= 0x100,
    ensures
        found is Some <==> table_present(file@, field as int, entry_size as int),
        found matches Some((offset, count)) ==> {
            &&& count == bytes::le32(file@, field + 4)
            &&& count > 0 ==> offset == bytes::le32(file@, field as int)
            &&& offset + count * entry_size <= file@.len()
        },
{
    if field as u64 + 8 > file.len() as u64 {
        return None;
    }
    let offset = bytes::u32_at(file, field);
    let count = bytes::u32_at(file, field + 4);
    within(file, offset, count, entry_size)
}

/// count entries from offset on, when they are all there.
fn within(file: &[u8], offset: u32, count: u32, entry_size: u64) -> (found: Option<(usize, usize)>)
    requires
        1 <= entry_size <= 0x100,
    ensures
        found is Some <==> present(file@, offset, count, entry_size as int),
        found matches Some((at, number)) ==> {
            &&& number == count
            &&& count > 0 ==> at == offset
            &&& at + number * entry_size <= file@.len()
        },
{
    if count == 0 {
        assert(0 * entry_size == 0) by (nonlinear_arith);
        return Some((0, 0));
    }
    assert(count <= count as u64 * entry_size <= 0xFFFF_FFFF * 0x100) by (nonlinear_arith)
        requires
            count <= 0xFFFF_FFFF,
            1 <= entry_size <= 0x100,
    ;
    if offset as u64 + count as u64 * entry_size <= file.len() as u64 {
        Some((offset as usize, count as usize))
    } else {
        None
    }
}

fn read_segments(file: &[u8], offset: usize, count: usize) -> (segments: Vec<Segment>)
    requires
        offset + count * 12 <= file@.len(),
    ensures
        segments@ == Seq::new(count as nat, |i: int| segment_at(file@, offset + i * 12)),
{
    assert(offset + count * 12 <= file.len());
    let mut segments: Vec<Segment> = Vec::new();
    for i in 0..count
        invariant
            offset + count * 12 <= file@.len() <= usize::MAX,
            segments@ =~= Seq::new(i as nat, |j: int| segment_at(file@, offset + j * 12)),
    {
        let at = offset + i * 12;
        segments.push(
            Segment {
                offset: bytes::u32_at(file, at),
                size: bytes::u32_at(file, at + 4),
                kind: bytes::u32_at(file, at + 8),
            },
        );
    }
    segments
}

fn read_exports(file: &[u8], offset: usize, count: usize) -> (exports: Vec<(String, u32)>)
    requires
        offset + count * 8 <= file@.len(),
    ensures
        named(exports@) == Seq::new(
            count as nat,
            |i: int|
                (
                    text_at(file@, bytes::le32(file@, offset + i * 8)),
                    bytes::le32(file@, offset + i * 8 + 4),
                ),
        ),
{
    assert(offset + count * 8 <= file.len());
    let mut exports: Vec<(String, u32)> = Vec::new();
    for i in 0..count
        invariant
            offset + count * 8 <= file@.len() <= usize::MAX,
            named(exports@) =~= Seq::new(
                i as nat,
                |j: int|
                    (
                        text_at(file@, bytes::le32(file@, offset + j * 8)),
                        bytes::le32(file@, offset + j * 8 + 4),
                    ),
            ),
    {
        let at = offset + i * 8;
        let ghost before = named(exports@);
        let name = cstring(file, bytes::u32_at(file, at));
        let ghost entry = (name@, bytes::le32(file@, at + 4));
        exports.push((name, bytes::u32_at(file, at + 4)));
        assert(named(exports@) =~= before.push(entry));
    }
    exports
}

fn read_words(file: &[u8], offset: usize, count: usize) -> (words: Vec<u32>)
    requires
        offset + count * 4 <= file@.len(),
    ensures
        words@ == Seq::new(count as nat, |i: int| bytes::le32(file@, offset + i * 4)),
{
    assert(offset + count * 4 <= file.len());
    let mut words: Vec<u32> = Vec::new();
    for i in 0..count
        invariant
            offset + count * 4 <= file@.len() <= usize::MAX,
            words@ =~= Seq::new(i as nat, |j: int| bytes::le32(file@, offset + j * 4)),
    {
        words.push(bytes::u32_at(file, offset + i * 4));
    }
    words
}

fn read_relocations(file: &[u8], offset: usize, count: usize) -> (relocations: Vec<Relocation>)
    requires
        offset + count * 12 <= file@.len(),
    ensures
        relocations@ == Seq::new(count as nat, |i: int| relocation_at(file@, offset + i * 12)),
{
    assert(offset + count * 12 <= file.len());
    let mut relocations: Vec<Relocation> = Vec::new();
    for i in 0..count
        invariant
            offset + count * 12 <= file@.len() <= usize::MAX,
            relocations@ =~= Seq::new(i as nat, |j: int| relocation_at(file@, offset + j * 12)),
    {
        let at = offset + i * 12;
        relocations.push(
            Relocation {
                target: bytes::u32_at(file, at),
                kind: file[at + 4],
                segment: file[at + 5] as u32,
                addend: bytes::u32_at(file, at + 8),
            },
        );
    }
    relocations
}

/// adds what the entry at `at` says a module takes without a name.
fn read_taken(file: &[u8], at: usize, list: &mut Vec<(String, u32)>)
    requires
        at + 20 <= file@.len(),
    ensures
        named(final(list)@) == named(old(list)@) + taken_from(file@, at as int),
{
    assert(at + 20 <= file.len());
    let offset = bytes::u32_at(file, at + 12);
    let count = bytes::u32_at(file, at + 16);
    let (start, number) = match within(file, offset, count, 8) {
        Some(found) => found,
        None => {
            assert(named(old(list)@) + Seq::empty() =~= named(old(list)@));
            return;
        },
    };
    assert(start + number * 8 <= file.len());
    for i in 0..number
        invariant
            at + 20 <= file@.len(),
            file@.len() <= usize::MAX,
            number == count,
            count > 0 ==> start == offset,
            start + number * 8 <= file@.len(),
            offset == bytes::le32(file@, at + 12),
            named(list@) =~= named(old(list)@) + Seq::new(
                i as nat,
                |j: int|
                    (
                        text_at(file@, bytes::le32(file@, at as int)),
                        bytes::le32(file@, offset + j * 8),
                    ),
            ),
    {
        let ghost before = named(list@);
        let name = cstring(file, bytes::u32_at(file, at));
        let ghost entry = (name@, bytes::le32(file@, start + i * 8));
        list.push((name, bytes::u32_at(file, start + i * 8)));
        assert(named(list@) =~= before.push(entry));
    }
    assert(named(list@) =~= named(old(list)@) + taken_from(file@, at as int));
}

fn read_anonymous_imports(file: &[u8]) -> (list: Vec<(String, u32)>)
    ensures
        named(list@) == all_taken(file@),
{
    let mut list: Vec<(String, u32)> = Vec::new();
    assert(named(list@) =~= Seq::empty());
    let (offset, count) = match table(file, 0xF0, 20) {
        Some(found) => found,
        None => return list,
    };
    assert(offset + count * 20 <= file.len());
    for i in 0..count
        invariant
            offset + count * 20 <= file@.len() <= usize::MAX,
            count > 0 ==> offset == bytes::le32(file@, 0xF0),
            named(list@) == taken(file@, i as nat),
    {
        read_taken(file, offset + i * 20, &mut list);
    }
    list
}

/// the module a file describes.
pub fn parse(file: &[u8]) -> (parsed: Option<Module>)
    ensures
        parsed is Some <==> is_module(file@),
        parsed matches Some(module) ==> module.describes(file@),
{
    if file.len() < 0xC4 || !rom::magic(file, 0x80, 0x43, 0x52, 0x4F, 0x30) {
        return None;
    }
    let (segments_at, segment_count) = match table(file, 0xC8, 12) {
        Some(found) => found,
        None => return None,
    };
    let (exports_at, export_count) = match table(file, 0xD0, 8) {
        Some(found) => found,
        None => return None,
    };
    let (indexed_at, indexed_count) = match table(file, 0xD8, 4) {
        Some(found) => found,
        None => return None,
    };
    let (relocations_at, relocation_count) = match table(file, 0x128, 12) {
        Some(found) => found,
        None => return None,
    };
    let (imports_at, import_count) = match table(file, 0xF8, 12) {
        Some(found) => found,
        None => return None,
    };
    let module = Module {
        name: cstring(file, bytes::u32_at(file, 0xC0)),
        segments: read_segments(file, segments_at, segment_count),
        exports: read_exports(file, exports_at, export_count),
        indexed_exports: read_words(file, indexed_at, indexed_count),
        relocations: read_relocations(file, relocations_at, relocation_count),
        imports: read_relocations(file, imports_at, import_count),
        anonymous_imports: read_anonymous_imports(file),
    };
    proof {
        let bytes = file@;
        assert(module.segments@ =~= entries(bytes, 0xC8, 12).map_values(
            |at: int| segment_at(bytes, at),
        ));
        assert(named(module.exports@) =~= entries(bytes, 0xD0, 8).map_values(
            |at: int| (text_at(bytes, bytes::le32(bytes, at)), bytes::le32(bytes, at + 4)),
        ));
        assert(module.indexed_exports@ =~= entries(bytes, 0xD8, 4).map_values(
            |at: int| bytes::le32(bytes, at),
        ));
        assert(module.relocations@ =~= entries(bytes, 0x128, 12).map_values(
            |at: int| relocation_at(bytes, at),
        ));
        assert(module.imports@ =~= entries(bytes, 0xF8, 12).map_values(
            |at: int| relocation_at(bytes, at),
        ));
    }
    Some(module)
}

/// the segment types holding code and holding zeros.
pub const CODE: u32 = 0;

pub const BSS: u32 = 3;

/// the tags among the first count whose address is found, as addresses.
pub open spec fn addresses(module: Module, tags: Seq<u32>, count: nat) -> Seq<u32>
    decreases count,
{
    if count == 0 {
        Seq::empty()
    } else {
        let before = addresses(module, tags, (count - 1) as nat);
        match module.code_place(tags[count - 1]) {
            Some(address) => before.push(address),
            None => before,
        }
    }
}

/// the zeros that the first count segments take.
pub open spec fn bss_total(segments: Seq<Segment>, count: nat) -> nat
    decreases count,
{
    if count == 0 {
        0
    } else {
        bss_total(segments, (count - 1) as nat) + if segments[count - 1].kind == BSS {
            segments[count - 1].size as nat
        } else {
            0
        }
    }
}

/// image with value stored at `at`, if that is inside it.
pub open spec fn patched(image: Seq<u8>, at: u32, value: u32) -> Seq<u8> {
    if at + 4 <= image.len() {
        bytes::stored(image, at as int, value)
    } else {
        image
    }
}

impl Module {
    /// there is a segment of code by that number.
    pub open spec fn holds_code(self, segment: u32) -> bool {
        segment < self.segments@.len() && self.segments@[segment as int].kind == CODE
    }

    /// where a segment tag points, given where each segment lives.
    pub open spec fn place(self, tag: u32) -> Option<u32> {
        let number = (tag & 0xF) as int;
        let offset = tag >> 4;
        if number < self.segments@.len() && offset < self.segments@[number].size {
            Some(arm::displaced(self.segments@[number].offset, offset as int))
        } else {
            None
        }
    }

    /// where a segment tag points, if that is in code.
    pub open spec fn code_place(self, tag: u32) -> Option<u32> {
        if self.holds_code(tag & 0xF) {
            self.place(tag)
        } else {
            None
        }
    }

    /// the address a segment tag points at, given where each segment lives.
    pub fn resolve(&self, tag: u32) -> (address: Option<u32>)
        ensures
            address == self.place(tag),
    {
        let number = tag & 0xF;
        let offset = tag >> 4;
        if (number as u64) < self.segments.len() as u64 {
            let segment = self.segments[number as usize];
            if offset < segment.size {
                return Some(segment.offset.wrapping_add(offset));
            }
        }
        None
    }

    fn is_code(&self, segment: u32) -> (answer: bool)
        ensures
            answer == self.holds_code(segment),
    {
        (segment as u64) < self.segments.len() as u64 && self.segments[segment as usize].kind
            == CODE
    }

    /// the address a segment tag points at, if that is in code.
    pub fn code_address(&self, tag: u32) -> (address: Option<u32>)
        ensures
            address == self.code_place(tag),
    {
        if self.is_code(tag & 0xF) {
            self.resolve(tag)
        } else {
            None
        }
    }

    /// the tags of the exported symbols, the named ones first.
    pub open spec fn export_tags(self) -> Seq<u32> {
        self.exports@.map_values(|entry: (String, u32)| entry.1) + self.indexed_exports@
    }

    /// the exported symbols that sit in code.
    pub open spec fn exported(self) -> Seq<u32> {
        addresses(self, self.export_tags(), self.export_tags().len())
    }

    /// the addresses of the exported symbols that sit in code.
    pub fn code_exports(&self) -> (found: Vec<u32>)
        ensures
            found@ == self.exported(),
    {
        let mut found: Vec<u32> = Vec::new();
        let ghost tags = self.export_tags();
        for i in 0..self.exports.len()
            invariant
                tags == self.export_tags(),
                found@ == addresses(*self, tags, i as nat),
        {
            assert(tags[i as int] == self.exports@[i as int].1);
            if let Some(address) = self.code_address(self.exports[i].1) {
                found.push(address);
            }
        }
        let named = self.exports.len();
        for i in 0..self.indexed_exports.len()
            invariant
                tags == self.export_tags(),
                named == self.exports@.len(),
                found@ == addresses(*self, tags, (named + i) as nat),
        {
            assert(tags[named + i] == self.indexed_exports@[i as int]);
            if let Some(address) = self.code_address(self.indexed_exports[i]) {
                found.push(address);
            }
        }
        found
    }

    /// where the zeros start when a file of size bytes is loaded.
    pub open spec fn bss_start(size: nat) -> int {
        rom::round_up(size as int, 0x1000)
    }

    /// how big the module is loaded, its zeros after the file.
    pub open spec fn loaded_size(self, size: nat) -> int {
        Self::bss_start(size) + bss_total(self.segments@, self.segments@.len())
    }

    /// where a segment starts when a file of size bytes is loaded.
    pub open spec fn start(self, size: nat, segment: Segment) -> u32 {
        if segment.kind == BSS {
            Self::bss_start(size) as u32
        } else {
            segment.offset
        }
    }

    /// image with one relocation applied, loaded at base.
    pub open spec fn relocated(
        self,
        size: nat,
        image: Seq<u8>,
        base: u32,
        relocation: Relocation,
    ) -> Seq<u8> {
        let target = (relocation.target & 0xF) as int;
        let count = self.segments@.len();
        if relocation.absolute() && target < count && relocation.segment < count {
            let place = self.start(size, self.segments@[target]);
            let symbol = self.start(size, self.segments@[relocation.segment as int]);
            patched(
                image,
                arm::displaced(place, (relocation.target >> 4) as int),
                arm::displaced(base, symbol + relocation.addend),
            )
        } else {
            image
        }
    }

    /// image with one import pointed at stub.
    pub open spec fn imported(
        self,
        size: nat,
        image: Seq<u8>,
        stub: u32,
        import: Relocation,
    ) -> Seq<u8> {
        let target = (import.target & 0xF) as int;
        if import.absolute() && target < self.segments@.len() {
            let place = self.start(size, self.segments@[target]);
            patched(
                image,
                arm::displaced(place, (import.target >> 4) as int),
                arm::displaced(stub, import.addend as int),
            )
        } else {
            image
        }
    }

    /// image with the first count relocations applied.
    pub open spec fn all_relocated(self, size: nat, image: Seq<u8>, base: u32, count: nat) -> Seq<u8>
        decreases count,
    {
        if count == 0 {
            image
        } else {
            self.relocated(
                size,
                self.all_relocated(size, image, base, (count - 1) as nat),
                base,
                self.relocations@[count - 1],
            )
        }
    }

    /// image with the first count imports pointed at stub.
    pub open spec fn all_imported(self, size: nat, image: Seq<u8>, stub: u32, count: nat) -> Seq<u8>
        decreases count,
    {
        if count == 0 {
            image
        } else {
            self.imported(
                size,
                self.all_imported(size, image, stub, (count - 1) as nat),
                stub,
                self.imports@[count - 1],
            )
        }
    }

    /// the module as it looks loaded at base, everything it imports pointing
    /// at stub.
    pub open spec fn loaded(self, file: Seq<u8>, base: u32, stub: u32) -> Seq<u8> {
        let size = file.len();
        let zeroed = file + Seq::new((self.loaded_size(size) - size) as nat, |i: int| 0u8);
        let relocated = self.all_relocated(size, zeroed, base, self.relocations@.len());
        self.all_imported(size, relocated, stub, self.imports@.len())
    }

    /// how big the module is loaded, unless 32 bits cannot hold that.
    pub fn image_size(&self, size: usize) -> (total: Option<u32>)
        ensures
            total is Some <==> self.loaded_size(size as nat) <= u32::MAX,
            total matches Some(found) ==> found == self.loaded_size(size as nat),
    {
        if size as u64 > 0xFFFF_F000 {
            proof {
                lemma_bss_start(size as nat);
            }
            return None;
        }
        proof {
            lemma_bss_start(size as nat);
        }
        let mut total = (size as u64 + 0xFFF) / 0x1000 * 0x1000;
        for i in 0..self.segments.len()
            invariant
                total == Self::bss_start(size as nat) + bss_total(self.segments@, i as nat),
                total <= u32::MAX,
        {
            if self.segments[i].kind == BSS {
                total = total + self.segments[i].size as u64;
                if total > 0xFFFF_FFFF {
                    proof {
                        lemma_bss_grows(self.segments@, (i + 1) as nat, self.segments@.len());
                    }
                    return None;
                }
            }
        }
        Some(total as u32)
    }

    fn starts_at(&self, bss: u32, segment: u32) -> (start: u32)
        requires
            segment < self.segments@.len(),
        ensures
            start == (if self.segments@[segment as int].kind == BSS {
                bss
            } else {
                self.segments@[segment as int].offset
            }),
    {
        let segment = self.segments[segment as usize];
        if segment.kind == BSS {
            bss
        } else {
            segment.offset
        }
    }

    /// applies one relocation to the image of a file of size bytes, whose
    /// zeros start at bss.
    fn relocate(
        &self,
        size: usize,
        image: &mut Vec<u8>,
        bss: u32,
        base: u32,
        relocation: Relocation,
    )
        requires
            bss == Self::bss_start(size as nat),
        ensures
            final(image)@ == self.relocated(size as nat, old(image)@, base, relocation),
    {
        let count = self.segments.len() as u64;
        let target = relocation.target & 0xF;
        if relocation.is_absolute() && (target as u64) < count && (relocation.segment as u64)
            < count {
            let at = self.starts_at(bss, target).wrapping_add(relocation.target >> 4);
            let symbol = self.starts_at(bss, relocation.segment);
            let value = base.wrapping_add(symbol).wrapping_add(relocation.addend);
            assert(value == arm::displaced(base, symbol + relocation.addend));
            patch(image, at, value);
        }
    }

    /// points one import in the image of a file of size bytes, whose zeros
    /// start at bss, at stub.
    fn point(&self, size: usize, image: &mut Vec<u8>, bss: u32, stub: u32, import: Relocation)
        requires
            bss == Self::bss_start(size as nat),
        ensures
            final(image)@ == self.imported(size as nat, old(image)@, stub, import),
    {
        let target = import.target & 0xF;
        if import.is_absolute() && (target as u64) < self.segments.len() as u64 {
            let at = self.starts_at(bss, target).wrapping_add(import.target >> 4);
            patch(image, at, stub.wrapping_add(import.addend));
        }
    }

    /// the module as it looks loaded at base, its bss after the file and
    /// its relocations applied, for running it without a loader. everything
    /// it imports points at stub.
    pub fn image(&self, file: &[u8], base: u32, stub: u32) -> (image: Vec<u8>)
        requires
            self.loaded_size(file@.len()) <= u32::MAX,
        ensures
            image@ == self.loaded(file@, base, stub),
    {
        let size = file.len();
        proof {
            lemma_bss_start(file@.len());
        }
        let bss = ((size as u64 + 0xFFF) / 0x1000 * 0x1000) as u32;
        let total = match self.image_size(size) {
            Some(total) => total,
            None => 0,
        };
        let mut image = bytes::copied(file);
        image.resize(total as usize, 0);
        let ghost zeroed = image@;
        assert(zeroed =~= file@ + Seq::new(
            (self.loaded_size(file@.len()) - file@.len()) as nat,
            |i: int| 0u8,
        ));
        for i in 0..self.relocations.len()
            invariant
                bss == Self::bss_start(size as nat),
                image@ == self.all_relocated(size as nat, zeroed, base, i as nat),
        {
            self.relocate(size, &mut image, bss, base, self.relocations[i]);
        }
        let ghost relocated = image@;
        for i in 0..self.imports.len()
            invariant
                bss == Self::bss_start(size as nat),
                image@ == self.all_imported(size as nat, relocated, stub, i as nat),
        {
            self.point(size, &mut image, bss, stub, self.imports[i]);
        }
        image
    }
}

/// stores value at `at`, if that is inside image.
fn patch(image: &mut Vec<u8>, at: u32, value: u32)
    ensures
        final(image)@ == patched(old(image)@, at, value),
{
    if at as u64 + 4 <= image.len() as u64 {
        bytes::put32(image, at as usize, value);
    }
}

proof fn lemma_bss_start(size: nat)
    ensures
        Module::bss_start(size) == (size + 0xFFF) / 0x1000 * 0x1000,
        size <= Module::bss_start(size) < size + 0x1000,
{
}

proof fn lemma_bss_grows(segments: Seq<Segment>, count: nat, more: nat)
    requires
        count <= more,
    ensures
        bss_total(segments, count) <= bss_total(segments, more),
    decreases more,
{
    if count < more {
        lemma_bss_grows(segments, count, (more - 1) as nat);
    }
}

/// the code of a module as discovery sees it, while its relocations are
/// gone through.
#[verifier::ext_equal]
pub struct Relocated {
    pub code: Seq<u8>,
    pub seeds: Seq<(u32, Source)>,
    pub slots: Set<u32>,
}

/// a word at address is inside a segment of size bytes at base.
pub open spec fn word_inside(base: u32, size: nat, address: u32) -> bool {
    let limit = (base + size) % 0x1_0000_0000;
    base <= address && address + 4 <= limit
}

impl Module {
    /// the first segment of code from number on that is not empty.
    pub open spec fn code_segment_from(self, number: nat) -> Option<Segment>
        decreases self.segments@.len() - number,
    {
        if number >= self.segments@.len() {
            None
        } else if self.segments@[number as int].kind == CODE && self.segments@[number as int].size
            > 0 {
            Some(self.segments@[number as int])
        } else {
            self.code_segment_from(number + 1)
        }
    }

    /// what a relocation against code gives away, and the address it stores
    /// in the code at base filled in.
    pub open spec fn code_relocated(
        self,
        base: u32,
        before: Relocated,
        relocation: Relocation,
    ) -> Relocated {
        if !self.holds_code(relocation.segment) {
            before
        } else {
            let address = arm::displaced(
                self.segments@[relocation.segment as int].offset,
                relocation.addend as int,
            );
            let seeded = Relocated {
                seeds: before.seeds.push((address, Source::Relocation)),
                ..before
            };
            match self.place(relocation.target) {
                Some(target) => if relocation.absolute() && word_inside(
                    base,
                    before.code.len(),
                    target,
                ) {
                    Relocated {
                        code: bytes::stored(before.code, target - base, address),
                        slots: before.slots.insert(target),
                        ..seeded
                    }
                } else {
                    seeded
                },
                None => seeded,
            }
        }
    }

    /// what the first count relocations give away.
    pub open spec fn all_code_relocated(self, base: u32, before: Relocated, count: nat) -> Relocated
        decreases count,
    {
        if count == 0 {
            before
        } else {
            self.code_relocated(
                base,
                self.all_code_relocated(base, before, (count - 1) as nat),
                self.relocations@[count - 1],
            )
        }
    }

    /// the code of the module in its file, and what leads into it.
    pub open spec fn code_of(self, file: Seq<u8>, imported: Seq<u32>) -> Option<(u32, Relocated)> {
        match self.code_segment_from(0) {
            None => None,
            Some(segment) => if segment.offset + segment.size > file.len() {
                None
            } else {
                let before = Relocated {
                    code: file.subrange(segment.offset as int, segment.offset + segment.size),
                    seeds: image::as_seeds(self.exported(), Source::Export) + image::as_seeds(
                        imported,
                        Source::Import,
                    ),
                    slots: Set::empty(),
                };
                Some(
                    (
                        segment.offset,
                        self.all_code_relocated(
                            segment.offset,
                            before,
                            self.relocations@.len(),
                        ),
                    ),
                )
            },
        }
    }

    fn code_segment(&self) -> (found: Option<Segment>)
        ensures
            found == self.code_segment_from(0),
    {
        let mut number: usize = 0;
        while number < self.segments.len()
            invariant
                number <= self.segments@.len(),
                self.code_segment_from(0) == self.code_segment_from(number as nat),
            decreases self.segments@.len() - number,
        {
            let segment = self.segments[number];
            if segment.kind == CODE && segment.size > 0 {
                return Some(segment);
            }
            number += 1;
        }
        None
    }

    /// the module's code as discovery sees it, at its offsets in the file
    /// with the code addresses its relocations store filled in. file is the
    /// whole file, where the stored addresses are still zero, and imported
    /// what other modules take from it without a name.
    pub fn program(&self, file: &[u8], imported: &[u32]) -> (program: Option<Program>)
        ensures
            program is Some <==> self.code_of(file@, imported@) is Some,
            program matches Some(found) ==> {
                let (base, code) = self.code_of(file@, imported@)->0;
                &&& found.text.base == base
                &&& found.text.bytes@ == code.code
                &&& found.seeds@ == code.seeds
                &&& found.slots matches Some(slots) && slots@ == code.slots
            },
    {
        let segment = match self.code_segment() {
            Some(segment) => segment,
            None => return None,
        };
        let start = segment.offset as u64;
        let code = match bytes::part(file, start, start + segment.size as u64) {
            Some(code) => bytes::copied(code),
            None => return None,
        };
        let base = segment.offset;
        let mut text = image::Segment { base, bytes: code };
        let mut seeds: Vec<(u32, Source)> = Vec::new();
        let exports = self.code_exports();
        image::push_seeds(&mut seeds, exports.as_slice(), Source::Export);
        image::push_seeds(&mut seeds, imported, Source::Import);
        let mut slots: BTreeSet<u32> = BTreeSet::new();
        let ghost before = Relocated { code: text.bytes@, seeds: seeds@, slots: slots@ };
        assert(seeds@ =~= image::as_seeds(self.exported(), Source::Export) + image::as_seeds(
            imported@,
            Source::Import,
        ));
        for i in 0..self.relocations.len()
            invariant
                text.base == base,
                (Relocated { code: text.bytes@, seeds: seeds@, slots: slots@ })
                    == self.all_code_relocated(base, before, i as nat),
        {
            let relocation = self.relocations[i];
            if self.is_code(relocation.segment) {
                let address = self.segments[relocation.segment as usize].offset.wrapping_add(
                    relocation.addend,
                );
                seeds.push((address, Source::Relocation));
                if let Some(target) = self.resolve(relocation.target) {
                    if relocation.is_absolute() && base <= target && target as u64 + 4
                        <= text.end() as u64 {
                        text.write32(target, address);
                        slots.insert(target);
                    }
                }
            }
        }
        Some(Program { text, seeds, slots: Some(slots) })
    }
}

/// an address that a relocation stores in the code reads back from there.
pub proof fn law_relocation_reads_back(
    module: Module,
    base: u32,
    before: Relocated,
    relocation: Relocation,
    target: u32,
)
    requires
        module.holds_code(relocation.segment),
        relocation.absolute(),
        module.place(relocation.target) == Some(target),
        word_inside(base, before.code.len(), target),
    ensures
        ({
            let after = module.code_relocated(base, before, relocation);
            let address = arm::displaced(
                module.segments@[relocation.segment as int].offset,
                relocation.addend as int,
            );
            &&& bytes::le32(after.code, target - base) == address
            &&& after.slots.contains(target)
            &&& after.seeds.contains((address, Source::Relocation))
            &&& after.code.len() == before.code.len()
        }),
{
    let after = module.code_relocated(base, before, relocation);
    let address = arm::displaced(
        module.segments@[relocation.segment as int].offset,
        relocation.addend as int,
    );
    assert(target - base + 4 <= before.code.len());
    bytes::law_stored_reads_back(before.code, target - base, address);
    assert(after.seeds[before.seeds.len() as int] == (address, Source::Relocation));
}

/// every relocation against code is among the seeds, whatever comes after it.
pub proof fn law_relocations_are_seeds(
    module: Module,
    base: u32,
    before: Relocated,
    number: int,
    count: nat,
)
    requires
        0 <= number < count <= module.relocations@.len(),
        module.holds_code(module.relocations@[number].segment),
    ensures
        module.all_code_relocated(base, before, count).seeds.contains(
            (
                arm::displaced(
                    module.segments@[module.relocations@[number].segment as int].offset,
                    module.relocations@[number].addend as int,
                ),
                Source::Relocation,
            ),
        ),
    decreases count,
{
    let seed = (
        arm::displaced(
            module.segments@[module.relocations@[number].segment as int].offset,
            module.relocations@[number].addend as int,
        ),
        Source::Relocation,
    );
    let previous = module.all_code_relocated(base, before, (count - 1) as nat);
    let after = module.all_code_relocated(base, before, count);
    if number < count - 1 {
        law_relocations_are_seeds(module, base, before, number, (count - 1) as nat);
        let i = previous.seeds.index_of(seed);
        assert(after.seeds[i] == seed);
    } else {
        assert(after.seeds[previous.seeds.len() as int] == seed);
    }
}

/// code that a relocation against it points at becomes a function.
pub proof fn law_relocated_pointers_become_functions(
    module: Module,
    program: Program,
    file: Seq<u8>,
    imported: Seq<u32>,
    number: int,
    address: u32,
)
    requires
        module.code_of(file, imported) matches Some((base, code)) && program.text.base == base
            && program.text.bytes@ == code.code && program.seeds@ == code.seeds,
        0 <= number < module.relocations@.len(),
        module.holds_code(module.relocations@[number].segment),
        discover::laws::landing(
            program,
            (
                arm::displaced(
                    module.segments@[module.relocations@[number].segment as int].offset,
                    module.relocations@[number].addend as int,
                ),
                Source::Relocation,
            ),
        ) == Some(address),
    ensures
        discover::findings(program).found.functions.contains_key(address),
{
    let segment = module.code_segment_from(0)->0;
    let before = Relocated {
        code: file.subrange(segment.offset as int, segment.offset + segment.size),
        seeds: image::as_seeds(module.exported(), Source::Export) + image::as_seeds(
            imported,
            Source::Import,
        ),
        slots: Set::empty(),
    };
    law_relocations_are_seeds(
        module,
        segment.offset,
        before,
        number,
        module.relocations@.len(),
    );
    discover::laws::law_seeds_become_functions(
        program,
        (
            arm::displaced(
                module.segments@[module.relocations@[number].segment as int].offset,
                module.relocations@[number].addend as int,
            ),
            Source::Relocation,
        ),
        address,
    );
}

/// loading a module keeps its size.
pub proof fn lemma_patches_keep_size(
    module: Module,
    size: nat,
    image: Seq<u8>,
    base: u32,
    stub: u32,
    count: nat,
)
    ensures
        module.all_relocated(size, image, base, count).len() == image.len(),
        module.all_imported(size, image, stub, count).len() == image.len(),
    decreases count,
{
    if count > 0 {
        lemma_patches_keep_size(module, size, image, base, stub, (count - 1) as nat);
    }
}

/// a loaded module is as big as it says.
pub proof fn law_loaded_size(module: Module, file: Seq<u8>, base: u32, stub: u32)
    ensures
        module.loaded(file, base, stub).len() == module.loaded_size(file.len()),
{
    let size = file.len();
    lemma_bss_start(size);
    let zeroed = file + Seq::new((module.loaded_size(size) - size) as nat, |i: int| 0u8);
    lemma_patches_keep_size(module, size, zeroed, base, stub, module.relocations@.len());
    let relocated = module.all_relocated(size, zeroed, base, module.relocations@.len());
    lemma_patches_keep_size(module, size, relocated, base, stub, module.imports@.len());
}

} // verus!
