//! the executable image of a title, split into its segments at the addresses
//! the title expects to run at.

use crate::arm;
use crate::bytes;
use crate::discover;
use crate::discover::{laws, Mode, Program, Source};
use crate::rom::{CodeSetInfo, Error, Title};
use vstd::prelude::*;

verus! {

pub struct Segment {
    pub base: u32,
    pub bytes: Vec<u8>,
}

impl Segment {
    /// the address right after the last byte, addresses wrapping around.
    pub open spec fn limit(self) -> u32 {
        ((self.base + self.bytes@.len()) % 0x1_0000_0000) as u32
    }

    /// address lies inside the segment.
    pub open spec fn holds(self, address: u32) -> bool {
        self.base <= address < self.limit()
    }

    /// the word at address, when all of it is there.
    pub open spec fn word_at(self, address: u32) -> Option<u32> {
        if self.base <= address && address - self.base + 4 <= self.bytes@.len() {
            Some(bytes::le32(self.bytes@, address - self.base))
        } else {
            None
        }
    }

    /// the halfword at address, when all of it is there.
    pub open spec fn half_at(self, address: u32) -> Option<u16> {
        if self.base <= address && address - self.base + 2 <= self.bytes@.len() {
            Some(bytes::le16(self.bytes@, address - self.base))
        } else {
            None
        }
    }

    pub fn end(&self) -> (end: u32)
        ensures
            end == self.limit(),
    {
        let size = (self.bytes.len() as u64 % 0x1_0000_0000) as u32;
        self.base.wrapping_add(size)
    }

    pub fn contains(&self, address: u32) -> (answer: bool)
        ensures
            answer == self.holds(address),
    {
        address >= self.base && address < self.end()
    }

    pub fn read32(&self, address: u32) -> (word: Option<u32>)
        ensures
            word == self.word_at(address),
    {
        if address < self.base {
            return None;
        }
        let offset = (address - self.base) as u64;
        if offset + 4 <= self.bytes.len() as u64 {
            Some(bytes::u32_at(self.bytes.as_slice(), offset as usize))
        } else {
            None
        }
    }

    /// stores value at address, which has to be inside the segment.
    pub fn write32(&mut self, address: u32, value: u32)
        requires
            old(self).word_at(address) is Some,
        ensures
            final(self).base == old(self).base,
            final(self).bytes@ == bytes::stored(old(self).bytes@, address - old(self).base, value),
    {
        let offset = (address - self.base) as usize;
        bytes::put32(&mut self.bytes, offset, value);
    }

    pub fn read16(&self, address: u32) -> (half: Option<u16>)
        ensures
            half == self.half_at(address),
    {
        if address < self.base {
            return None;
        }
        let offset = (address - self.base) as u64;
        if offset + 2 <= self.bytes.len() as u64 {
            Some(bytes::u16_at(self.bytes.as_slice(), offset as usize))
        } else {
            None
        }
    }

    /// every aligned word in the segment, with its address.
    pub fn words(&self) -> (words: Vec<(u32, u32)>)
        ensures
            words@ == Seq::new(
                self.bytes@.len() / 4,
                |i: int| (arm::displaced(self.base, 4 * i), bytes::le32(self.bytes@, 4 * i)),
            ),
    {
        let mut words: Vec<(u32, u32)> = Vec::new();
        let count = self.bytes.len() / 4;
        for i in 0..count
            invariant
                count == self.bytes@.len() / 4,
                self.bytes@.len() <= usize::MAX,
                words@.len() == i,
                forall|j: int|
                    0 <= j < i ==> words@[j] == (
                        arm::displaced(self.base, 4 * j),
                        bytes::le32(self.bytes@, 4 * j),
                    ),
        {
            let offset = (4 * (i as u64) % 0x1_0000_0000) as u32;
            assert((self.base + offset) % 0x1_0000_0000 == (self.base + 4 * i) % 0x1_0000_0000);
            words.push((self.base.wrapping_add(offset), bytes::u32_at(self.bytes.as_slice(), i * 4)));
        }
        assert(words@ =~= Seq::new(
            self.bytes@.len() / 4,
            |i: int| (arm::displaced(self.base, 4 * i), bytes::le32(self.bytes@, 4 * i)),
        ));
        words
    }
}

/// a word reads back as it was written, and the words beside it stay.
pub proof fn law_write_reads_back(before: Segment, after: Segment, address: u32, value: u32)
    requires
        before.word_at(address) is Some,
        after.base == before.base,
        after.bytes@ == bytes::stored(before.bytes@, address - before.base, value),
    ensures
        after.word_at(address) == Some(value),
        after.limit() == before.limit(),
        forall|other: u32|
            other + 4 <= address || address + 4 <= other ==> #[trigger] after.word_at(other) == before.word_at(
                other,
            ),
{
    bytes::law_stored_reads_back(before.bytes@, address - before.base, value);
    assert forall|other: u32| other + 4 <= address || address + 4 <= other implies #[trigger] after.word_at(
        other,
    ) == before.word_at(other) by {
        if before.word_at(other) is Some {
            bytes::law_stored_elsewhere(
                before.bytes@,
                address - before.base,
                value,
                other - before.base,
            );
        }
    }
}

pub const PAGE_SIZE: u64 = 0x1000;

pub struct Image {
    pub entry: u32,
    pub text: Segment,
    pub rodata: Segment,
    pub data: Segment,
}

/// the bytes of the segment at offset in the code, none when it is not all
/// there.
pub open spec fn segment_bytes(code: Seq<u8>, info: CodeSetInfo, offset: int) -> Seq<u8> {
    if offset + info.size <= code.len() {
        code.subrange(offset, offset + info.size)
    } else {
        Seq::empty()
    }
}

/// where the read only data starts in the code, the text before it padded to
/// whole pages.
pub open spec fn rodata_offset(title: Title) -> int {
    title.exheader.text.num_pages * PAGE_SIZE
}

/// where the data starts in the code.
pub open spec fn data_offset(title: Title) -> int {
    rodata_offset(title) + title.exheader.rodata.num_pages * PAGE_SIZE
}

/// the segment at offset in the code.
fn segment(code: &[u8], info: CodeSetInfo, offset: u64) -> (segment: Segment)
    requires
        offset <= 0x2000_0000_0000,
    ensures
        segment.base == info.address,
        segment.bytes@ == segment_bytes(code@, info, offset as int),
{
    let bytes = match bytes::part(code, offset, offset + info.size as u64) {
        Some(part) => bytes::copied(part),
        None => Vec::new(),
    };
    assert(bytes@ =~= segment_bytes(code@, info, offset as int));
    Segment { base: info.address, bytes }
}

/// the first count words of segment that point into text.
pub open spec fn pointers(text: Segment, segment: Segment, count: nat) -> Seq<(u32, Source)>
    decreases count,
{
    if count == 0 {
        Seq::empty()
    } else {
        let before = pointers(text, segment, (count - 1) as nat);
        let value = bytes::le32(segment.bytes@, 4 * (count - 1));
        if text.holds(value & !1) {
            before.push((value, Source::Pointer))
        } else {
            before
        }
    }
}

/// every word of segment that points into text.
pub open spec fn all_pointers(text: Segment, segment: Segment) -> Seq<(u32, Source)> {
    pointers(text, segment, segment.bytes@.len() / 4)
}

/// every one of addresses as a seed.
pub open spec fn as_seeds(addresses: Seq<u32>, source: Source) -> Seq<(u32, Source)> {
    addresses.map_values(|address: u32| (address, source))
}

pub fn push_seeds(seeds: &mut Vec<(u32, Source)>, addresses: &[u32], source: Source)
    ensures
        final(seeds)@ == old(seeds)@ + as_seeds(addresses@, source),
{
    for i in 0..addresses.len()
        invariant
            seeds@ =~= old(seeds)@ + as_seeds(addresses@.take(i as int), source),
    {
        seeds.push((addresses[i], source));
    }
    assert(addresses@.take(addresses@.len() as int) =~= addresses@);
}

fn push_pointers(seeds: &mut Vec<(u32, Source)>, text: &Segment, segment: &Segment)
    ensures
        final(seeds)@ == old(seeds)@ + all_pointers(*text, *segment),
{
    let words = segment.words();
    for i in 0..words.len()
        invariant
            words@.len() == segment.bytes@.len() / 4,
            forall|j: int|
                0 <= j < words@.len() ==> (#[trigger] words@[j]).1 == bytes::le32(
                    segment.bytes@,
                    4 * j,
                ),
            seeds@ =~= old(seeds)@ + pointers(*text, *segment, i as nat),
    {
        let value = words[i].1;
        if text.contains(value & !1) {
            seeds.push((value, Source::Pointer));
        }
    }
}

impl Image {
    /// the image is what the decompressed code of title holds, each segment
    /// padded to whole pages, the same way the loader maps them.
    pub open spec fn holds(self, title: Title, code: Seq<u8>) -> bool {
        let header = title.exheader;
        &&& self.entry == header.text.address
        &&& self.text.base == header.text.address
        &&& self.text.bytes@ == segment_bytes(code, header.text, 0)
        &&& self.rodata.base == header.rodata.address
        &&& self.rodata.bytes@ == segment_bytes(code, header.rodata, rodata_offset(title))
        &&& self.data.base == header.data.address
        &&& self.data.bytes@ == segment_bytes(code, header.data, data_offset(title))
    }

    /// the segments sit one after another in the decompressed code, each
    /// padded to whole pages, the same way the loader maps them. raw is what
    /// the dump has for .code.
    pub fn from_title(title: &Title, raw: Vec<u8>) -> (result: Result<Image, Error>)
        requires
            title.exheader.compress_code ==> crate::rom::unpacked_size(raw@) <= usize::MAX,
        ensures
            match title.code_of(raw@) {
                Ok(code) => result matches Ok(image) && image.holds(*title, code),
                Err(message) => result matches Err(error) && error@ == message,
            },
    {
        let code = match title.code(raw) {
            Ok(code) => code,
            Err(error) => return Err(error),
        };
        let header = &title.exheader;
        let rodata_offset = header.text.num_pages as u64 * PAGE_SIZE;
        let data_offset = rodata_offset + header.rodata.num_pages as u64 * PAGE_SIZE;
        Ok(
            Image {
                entry: header.text.address,
                text: segment(code.as_slice(), header.text, 0),
                rodata: segment(code.as_slice(), header.rodata, rodata_offset),
                data: segment(code.as_slice(), header.data, data_offset),
            },
        )
    }

    /// where discovery starts looking.
    pub open spec fn seeds(self, exports: Seq<u32>, imported: Seq<u32>) -> Seq<(u32, Source)> {
        seq![(self.entry, Source::Entry)] + as_seeds(exports, Source::Export) + as_seeds(
            imported,
            Source::Import,
        ) + all_pointers(self.text, self.rodata) + all_pointers(self.text, self.data)
    }

    /// the executable as discovery sees it, starting from the entry point,
    /// the exports and what modules take from it without a name. nothing
    /// says where it keeps pointers, so any word in the data segments that
    /// lands in the code is taken for one.
    pub fn into_program(self, exports: &[u32], imported: &[u32]) -> (program: Program)
        ensures
            program.text == self.text,
            program.slots is None,
            program.seeds@ == self.seeds(exports@, imported@),
    {
        let mut seeds: Vec<(u32, Source)> = Vec::new();
        seeds.push((self.entry, Source::Entry));
        assert(seeds@ =~= seq![(self.entry, Source::Entry)]);
        push_seeds(&mut seeds, exports, Source::Export);
        push_seeds(&mut seeds, imported, Source::Import);
        push_pointers(&mut seeds, &self.text, &self.rodata);
        push_pointers(&mut seeds, &self.text, &self.data);
        Program { text: self.text, seeds, slots: None }
    }
}

proof fn lemma_pointers(text: Segment, segment: Segment, place: int, count: nat)
    requires
        0 <= place < count,
        text.holds(bytes::le32(segment.bytes@, 4 * place) & !1),
    ensures
        pointers(text, segment, count).contains(
            (bytes::le32(segment.bytes@, 4 * place), Source::Pointer),
        ),
    decreases count,
{
    let value = bytes::le32(segment.bytes@, 4 * place);
    let before = pointers(text, segment, (count - 1) as nat);
    let after = pointers(text, segment, count);
    if place == count - 1 {
        assert(after[before.len() as int] == (value, Source::Pointer));
    } else {
        lemma_pointers(text, segment, place, (count - 1) as nat);
        let i = before.index_of((value, Source::Pointer));
        assert(after[i] == (value, Source::Pointer));
    }
}

proof fn lemma_even(value: u32)
    by (bit_vector)
    ensures
        value & 3 == 0 ==> value & !1 == value,
{
}

/// every word of the data segments that is the address of code, odd for
/// Thumb, becomes a function.
pub proof fn law_pointers_become_functions(
    image: Image,
    program: Program,
    exports: Seq<u32>,
    imported: Seq<u32>,
    segment: Segment,
    place: int,
    address: u32,
    mode: Mode,
)
    requires
        program.text == image.text,
        program.seeds@ == image.seeds(exports, imported),
        segment == image.rodata || segment == image.data,
        0 <= place < segment.bytes@.len() / 4,
        discover::pointed_function(bytes::le32(segment.bytes@, 4 * place)) == Some((address, mode)),
        image.text.holds(address),
    ensures
        discover::findings(program).found.functions.contains_key(address),
{
    let value = bytes::le32(segment.bytes@, 4 * place);
    let seed = (value, Source::Pointer);
    lemma_even(value);
    lemma_pointers(image.text, segment, place, segment.bytes@.len() / 4);
    let own = all_pointers(image.text, segment);
    let i = own.index_of(seed);
    let seeds = program.seeds@;
    let known = 1 + exports.len() + imported.len();
    if segment == image.rodata {
        assert(seeds[known + i] == seed);
    } else {
        assert(seeds[known + all_pointers(image.text, image.rodata).len() + i] == seed);
    }
    laws::law_seeds_become_functions(program, seed, address);
}

proof fn lemma_pointers_are_pointers(text: Segment, segment: Segment, count: nat)
    ensures
        forall|i: int|
            0 <= i < pointers(text, segment, count).len() ==> (#[trigger] pointers(
                text,
                segment,
                count,
            )[i]).1 is Pointer,
    decreases count,
{
    if count > 0 {
        lemma_pointers_are_pointers(text, segment, (count - 1) as nat);
    }
}

/// only the first seed is where the program starts.
proof fn lemma_one_entry(image: Image, exports: Seq<u32>, imported: Seq<u32>, entry: u32)
    requires
        image.seeds(exports, imported).contains((entry, Source::Entry)),
    ensures
        entry == image.entry,
{
    let seeds = image.seeds(exports, imported);
    let i = seeds.index_of((entry, Source::Entry));
    let (rodata, data) = (image.rodata, image.data);
    lemma_pointers_are_pointers(image.text, rodata, rodata.bytes@.len() / 4);
    lemma_pointers_are_pointers(image.text, data, data.bytes@.len() / 4);
    let known = 1 + exports.len() + imported.len();
    let more = known + all_pointers(image.text, rodata).len();
    assert(seeds[i].1 is Entry);
    if i >= more {
        assert(seeds[i] == all_pointers(image.text, data)[i - more]);
    } else if i >= known {
        assert(seeds[i] == all_pointers(image.text, rodata)[i - known]);
    }
}

/// the entry point becomes a function, known for being it, and so does every
/// export and everything imported in the code. any other function is in the
/// text.
pub proof fn law_entry_and_exports_become_functions(
    image: Image,
    program: Program,
    exports: Seq<u32>,
    imported: Seq<u32>,
)
    requires
        program.text == image.text,
        program.seeds@ == image.seeds(exports, imported),
    ensures
        discover::findings(program).found.functions.contains_key(image.entry),
        discover::findings(program).found.functions[image.entry].source is Entry,
        forall|entry: u32| #[trigger]
            discover::findings(program).found.functions.contains_key(entry) && entry != image.entry
                ==> image.text.holds(entry),
        forall|i: int|
            0 <= i < exports.len() ==> (laws::landing(
                program,
                (#[trigger] exports[i], Source::Export),
            ) matches Some(address) ==> discover::findings(program).found.functions.contains_key(
                address,
            )),
        forall|i: int|
            0 <= i < imported.len() ==> (laws::landing(
                program,
                (#[trigger] imported[i], Source::Import),
            ) matches Some(address) ==> discover::findings(program).found.functions.contains_key(
                address,
            )),
{
    let seeds = program.seeds@;
    assert(seeds[0] == (image.entry, Source::Entry));
    laws::law_entry_is_known_as_such(program);
    assert forall|entry: u32| #[trigger]
        discover::findings(program).found.functions.contains_key(entry) && entry
            != image.entry implies image.text.holds(entry) by {
        laws::law_functions_are_in_the_text(program, entry);
        if !image.text.holds(entry) {
            lemma_one_entry(image, exports, imported, entry);
        }
    }
    assert forall|i: int| 0 <= i < exports.len() implies (laws::landing(
        program,
        (#[trigger] exports[i], Source::Export),
    ) matches Some(address) ==> discover::findings(program).found.functions.contains_key(
        address,
    )) by {
        let seed = (exports[i], Source::Export);
        assert(seeds[1 + i] == seed);
        if let Some(address) = laws::landing(program, seed) {
            laws::law_seeds_become_functions(program, seed, address);
        }
    }
    assert forall|i: int| 0 <= i < imported.len() implies (laws::landing(
        program,
        (#[trigger] imported[i], Source::Import),
    ) matches Some(address) ==> discover::findings(program).found.functions.contains_key(
        address,
    )) by {
        let seed = (imported[i], Source::Import);
        assert(seeds[1 + exports.len() + i] == seed);
        if let Some(address) = laws::landing(program, seed) {
            laws::law_seeds_become_functions(program, seed, address);
        }
    }
}

} // verus!
