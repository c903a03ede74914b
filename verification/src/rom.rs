//! reading a decrypted game dump, a .3ds cartridge image or a bare .cxi,
//! for what recompiling needs, the code and its layout from the executable
//! partition, and the modules and their descriptions from its RomFS. only
//! what is asked for is read, dumps run to gigabytes.

use crate::bytes;
use crate::text;
use vstd::prelude::*;

pub mod laws;

verus! {

/// why a dump could not be read.
#[derive(Debug)]
pub struct Error(pub String);

impl View for Error {
    type V = Seq<char>;

    open spec fn view(&self) -> Seq<char> {
        self.0@
    }
}

impl Error {
    /// what went wrong, in words.
    pub fn message(&self) -> (message: &str)
        ensures
            message@ == self@,
    {
        self.0.as_str()
    }
}

fn error<T>(message: &str) -> (failed: Result<T, Error>)
    ensures
        failed matches Err(error) && error@ == message@,
{
    Err(Error(message.to_owned()))
}

/// how far the decompression has come, index being where it reads and
/// cursor where it writes, both going down.
#[verifier::ext_equal]
pub struct Unpacking {
    pub out: Seq<u8>,
    pub index: int,
    pub cursor: int,
}

/// out with length bytes written below cursor, each the byte distance past
/// where it goes, if there are that many.
pub open spec fn run_copied(out: Seq<u8>, cursor: int, length: nat, distance: int) -> Option<Seq<u8>>
    decreases length,
{
    if length == 0 {
        Some(out)
    } else if cursor + distance >= out.len() {
        None
    } else {
        run_copied(
            out.update(cursor - 1, out[cursor + distance]),
            cursor - 1,
            (length - 1) as nat,
            distance,
        )
    }
}

/// one byte taken over as it is.
pub open spec fn literal_unpacked(compressed: Seq<u8>, at: Unpacking) -> Unpacking {
    Unpacking {
        out: at.out.update(at.cursor - 1, compressed[at.index - 1]),
        index: at.index - 1,
        cursor: at.cursor - 1,
    }
}

/// one run, whose length and distance the next two bytes hold.
pub open spec fn run_unpacked(compressed: Seq<u8>, at: Unpacking) -> Result<Unpacking, Seq<char>> {
    let pair = bytes::le16(compressed, at.index - 2);
    // runs are never shorter than three, nor closer than two
    let length = (pair >> 12) as nat + 3;
    let distance = (pair & 0xFFF) + 2;
    if at.index < 2 {
        Err("a back reference is cut short"@)
    } else if at.cursor < length {
        Err("a run goes past the start"@)
    } else {
        match run_copied(at.out, at.cursor, length, distance) {
            Some(out) => Ok(Unpacking { out, index: at.index - 2, cursor: at.cursor - length }),
            None => Err("a run reads past the end"@),
        }
    }
}

/// up to left runs and bytes, which of the two it is told by the bits of
/// control from the high one down.
pub open spec fn group_unpacked(
    compressed: Seq<u8>,
    stop: int,
    control: u8,
    left: nat,
    at: Unpacking,
) -> Result<Unpacking, Seq<char>>
    decreases left,
{
    if left == 0 || at.index <= stop || at.index == 0 || at.cursor == 0 {
        Ok(at)
    } else if control & 0x80 != 0 {
        match run_unpacked(compressed, at) {
            Ok(next) => group_unpacked(compressed, stop, control << 1, (left - 1) as nat, next),
            Err(message) => Err(message),
        }
    } else {
        group_unpacked(
            compressed,
            stop,
            control << 1,
            (left - 1) as nat,
            literal_unpacked(compressed, at),
        )
    }
}

/// everything down to stop.
pub open spec fn unpacked(compressed: Seq<u8>, stop: int, at: Unpacking) -> Result<
    Seq<u8>,
    Seq<char>,
>
    decreases at.index,
{
    if at.index <= stop || at.index <= 0 {
        Ok(at.out)
    } else {
        proof {
            lemma_group_goes_down(
                compressed,
                stop,
                compressed[at.index - 1],
                8,
                Unpacking { index: at.index - 1, ..at },
            );
        }
        match group_unpacked(
            compressed,
            stop,
            compressed[at.index - 1],
            8,
            Unpacking { index: at.index - 1, ..at },
        ) {
            Ok(next) => unpacked(compressed, stop, next),
            Err(message) => Err(message),
        }
    }
}

/// reading only goes down.
pub proof fn lemma_group_goes_down(
    compressed: Seq<u8>,
    stop: int,
    control: u8,
    left: nat,
    at: Unpacking,
)
    ensures
        group_unpacked(compressed, stop, control, left, at) matches Ok(next) ==> next.index
            <= at.index && (0 <= at.index ==> 0 <= next.index),
    decreases left,
{
    if left == 0 || at.index <= stop || at.index == 0 || at.cursor == 0 {
    } else if control & 0x80 != 0 {
        if let Ok(next) = run_unpacked(compressed, at) {
            lemma_group_goes_down(compressed, stop, control << 1, (left - 1) as nat, next);
        }
    } else {
        lemma_group_goes_down(
            compressed,
            stop,
            control << 1,
            (left - 1) as nat,
            literal_unpacked(compressed, at),
        );
    }
}

/// how many bytes compressed code takes up decompressed, from its last word.
pub open spec fn unpacked_size(compressed: Seq<u8>) -> nat {
    if compressed.len() < 8 {
        0
    } else {
        compressed.len() + bytes::le32(compressed, compressed.len() - 4) as nat
    }
}

/// what compressed code decompresses to, or what is wrong with it.
pub open spec fn decompressed(compressed: Seq<u8>) -> Result<Seq<u8>, Seq<char>> {
    let size = compressed.len() as int;
    if size < 8 {
        Err("compressed code shorter than its footer"@)
    } else {
        let footer = bytes::le32(compressed, size - 8);
        // the high byte counts the footer and padding, the rest how far back
        // the compressed part starts
        let footer_size = (footer >> 24) as int;
        let span = (footer & 0x00FF_FFFF) as int;
        if footer_size > size || span > size {
            Err("the compressed code's footer points outside it"@)
        } else {
            let out_size = unpacked_size(compressed);
            unpacked(
                compressed,
                size - span,
                Unpacking {
                    out: compressed + Seq::new((out_size - size) as nat, |i: int| 0u8),
                    index: size - footer_size,
                    cursor: out_size as int,
                },
            )
        }
    }
}

/// copies a run down below cursor.
fn copy_run(out: &mut Vec<u8>, cursor: usize, length: usize, distance: usize) -> (copied: bool)
    requires
        length <= cursor <= old(out)@.len(),
        distance <= 0x1_0000,
    ensures
        final(out)@.len() == old(out)@.len(),
        match run_copied(old(out)@, cursor as int, length as nat, distance as int) {
            Some(after) => copied && final(out)@ == after,
            None => !copied,
        },
{
    let mut left = length;
    let mut to = cursor;
    let ghost start = out@;
    while left > 0
        invariant
            left <= to <= out@.len(),
            distance <= 0x1_0000,
            out@.len() == start.len(),
            start == old(out)@,
            run_copied(out@, to as int, left as nat, distance as int) == run_copied(
                start,
                cursor as int,
                length as nat,
                distance as int,
            ),
        decreases left,
    {
        if distance >= out.len() - to {
            return false;
        }
        let byte = out[to + distance];
        to -= 1;
        out.set(to, byte);
        left -= 1;
    }
    true
}

/// undoes the backwards LZSS the SDK compresses .code with, which works from
/// the end of the buffer towards its start.
pub fn decompress(compressed: &[u8]) -> (result: Result<Vec<u8>, Error>)
    requires
        unpacked_size(compressed@) <= usize::MAX,
    ensures
        match decompressed(compressed@) {
            Ok(code) => result matches Ok(out) && out@ == code,
            Err(message) => result matches Err(error) && error@ == message,
        },
{
    let size = compressed.len();
    if size < 8 {
        return error("compressed code shorter than its footer");
    }
    let out_size = size + bytes::u32_at(compressed, size - 4) as usize;
    let footer = bytes::u32_at(compressed, size - 8);
    let footer_size = (footer >> 24) as usize;
    let span = (footer & 0x00FF_FFFF) as usize;
    if footer_size > size || span > size {
        return error("the compressed code's footer points outside it");
    }
    let mut out = bytes::copied(compressed);
    out.resize(out_size, 0);
    let mut index = size - footer_size;
    let stop = size - span;
    let mut cursor = out_size;
    let ghost packed = compressed@;
    let ghost result = decompressed(packed);
    assert(out@ =~= packed + Seq::new((out_size - size) as nat, |i: int| 0u8));
    while index > stop
        invariant
            packed == compressed@,
            index <= packed.len(),
            cursor <= out@.len(),
            result == decompressed(packed),
            result == unpacked(
                packed,
                stop as int,
                Unpacking { out: out@, index: index as int, cursor: cursor as int },
            ),
        decreases index,
    {
        index -= 1;
        let ghost before = index;
        let mut control = compressed[index];
        let ghost first = Unpacking { out: out@, index: index as int, cursor: cursor as int };
        let ghost group = group_unpacked(packed, stop as int, control, 8, first);
        proof {
            lemma_group_goes_down(packed, stop as int, control, 8, first);
        }
        let mut left: u32 = 8;
        while left > 0 && index > stop && index != 0 && cursor != 0
            invariant
                packed == compressed@,
                index <= before < packed.len(),
                cursor <= out@.len(),
                left <= 8,
                result == decompressed(packed),
                result == (match group {
                    Ok(next) => unpacked(packed, stop as int, next),
                    Err(message) => Err(message),
                }),
                group == group_unpacked(
                    packed,
                    stop as int,
                    control,
                    left as nat,
                    Unpacking { out: out@, index: index as int, cursor: cursor as int },
                ),
            decreases left,
        {
            if control & 0x80 != 0 {
                if index < 2 {
                    return error("a back reference is cut short");
                }
                index -= 2;
                let pair = bytes::u16_at(compressed, index);
                proof {
                    lemma_pair(pair);
                }
                // runs are never shorter than three, nor closer than two
                let length = (pair >> 12) as usize + 3;
                let distance = (pair & 0xFFF) as usize + 2;
                if cursor < length {
                    return error("a run goes past the start");
                }
                if !copy_run(&mut out, cursor, length, distance) {
                    return error("a run reads past the end");
                }
                cursor -= length;
            } else {
                index -= 1;
                cursor -= 1;
                out.set(cursor, compressed[index]);
            }
            control = control << 1;
            left -= 1;
        }
    }
    Ok(out)
}

proof fn lemma_pair(pair: u16)
    by (bit_vector)
    ensures
        pair >> 12 <= 0xF,
        pair & 0xFFF <= 0xFFF,
{
}

/// decompressed code is as long as its last word says.
pub proof fn law_decompressed_size(compressed: Seq<u8>)
    ensures
        decompressed(compressed) matches Ok(code) ==> code.len() == unpacked_size(compressed),
{
    if compressed.len() >= 8 {
        let size = compressed.len() as int;
        let footer = bytes::le32(compressed, size - 8);
        let footer_size = (footer >> 24) as int;
        let span = (footer & 0x00FF_FFFF) as int;
        if footer_size <= size && span <= size {
            let out_size = unpacked_size(compressed);
            lemma_unpacked_size(
                compressed,
                size - span,
                Unpacking {
                    out: compressed + Seq::new((out_size - size) as nat, |i: int| 0u8),
                    index: size - footer_size,
                    cursor: out_size as int,
                },
            );
        }
    }
}

proof fn lemma_run_size(out: Seq<u8>, cursor: int, length: nat, distance: int)
    requires
        length <= cursor <= out.len(),
    ensures
        run_copied(out, cursor, length, distance) matches Some(after) ==> after.len() == out.len(),
    decreases length,
{
    if length > 0 && cursor + distance < out.len() {
        lemma_run_size(
            out.update(cursor - 1, out[cursor + distance]),
            cursor - 1,
            (length - 1) as nat,
            distance,
        );
    }
}

proof fn lemma_group_size(
    compressed: Seq<u8>,
    stop: int,
    control: u8,
    left: nat,
    at: Unpacking,
)
    requires
        0 <= at.cursor <= at.out.len(),
    ensures
        group_unpacked(compressed, stop, control, left, at) matches Ok(next) ==> next.out.len()
            == at.out.len() && 0 <= next.cursor <= at.cursor,
    decreases left,
{
    if left == 0 || at.index <= stop || at.index == 0 || at.cursor == 0 {
    } else if control & 0x80 != 0 {
        let pair = bytes::le16(compressed, at.index - 2);
        if let Ok(next) = run_unpacked(compressed, at) {
            lemma_run_size(at.out, at.cursor, (pair >> 12) as nat + 3, (pair & 0xFFF) + 2);
            lemma_group_size(compressed, stop, control << 1, (left - 1) as nat, next);
        }
    } else {
        lemma_group_size(
            compressed,
            stop,
            control << 1,
            (left - 1) as nat,
            literal_unpacked(compressed, at),
        );
    }
}

proof fn lemma_unpacked_size(compressed: Seq<u8>, stop: int, at: Unpacking)
    requires
        0 <= at.cursor <= at.out.len(),
    ensures
        unpacked(compressed, stop, at) matches Ok(code) ==> code.len() == at.out.len(),
    decreases at.index,
{
    if at.index > stop && at.index > 0 {
        let control = compressed[at.index - 1];
        let first = Unpacking { index: at.index - 1, ..at };
        lemma_group_goes_down(compressed, stop, control, 8, first);
        lemma_group_size(compressed, stop, control, 8, first);
        if let Ok(next) = group_unpacked(compressed, stop, control, 8, first) {
            lemma_unpacked_size(compressed, stop, next);
        }
    }
}

/// code whose compressed part is empty comes out as it is, with zeros after
/// it.
pub proof fn law_nothing_compressed(compressed: Seq<u8>)
    requires
        compressed.len() >= 8,
        bytes::le32(compressed, compressed.len() - 8) >> 24 <= compressed.len(),
        bytes::le32(compressed, compressed.len() - 8) & 0x00FF_FFFF <= bytes::le32(
            compressed,
            compressed.len() - 8,
        ) >> 24,
    ensures
        decompressed(compressed) == Ok::<Seq<u8>, Seq<char>>(
            compressed + Seq::new(
                bytes::le32(compressed, compressed.len() - 4) as nat,
                |i: int| 0u8,
            ),
        ),
{
    let extra = bytes::le32(compressed, compressed.len() - 4) as nat;
    assert(unpacked_size(compressed) - compressed.len() == extra);
}

/// where one segment of the code is mapped, from the exheader.
#[derive(Debug, Clone, Copy, PartialEq, Eq, Structural)]
pub struct CodeSetInfo {
    pub address: u32,
    /// the pages it is mapped in.
    pub num_pages: u32,
    /// the bytes it really has.
    pub size: u32,
}

/// the segment the exheader describes at offset.
pub open spec fn code_set(ex: Seq<u8>, offset: int) -> CodeSetInfo {
    CodeSetInfo {
        address: bytes::le32(ex, offset),
        num_pages: bytes::le32(ex, offset + 4),
        size: bytes::le32(ex, offset + 8),
    }
}

impl CodeSetInfo {
    pub fn read(ex: &[u8], offset: usize) -> (info: CodeSetInfo)
        requires
            offset + 12 <= ex@.len(),
        ensures
            info == code_set(ex@, offset as int),
    {
        assert(offset + 12 <= ex.len());
        CodeSetInfo {
            address: bytes::u32_at(ex, offset),
            num_pages: bytes::u32_at(ex, offset + 4),
            size: bytes::u32_at(ex, offset + 8),
        }
    }
}

/// the parts of the extended header recompiling cares about.
#[derive(Debug, Clone)]
pub struct ExHeader {
    pub title: String,
    /// the ExeFS .code is compressed.
    pub compress_code: bool,
    pub text: CodeSetInfo,
    pub rodata: CodeSetInfo,
    pub data: CodeSetInfo,
    pub bss_size: u32,
}

impl ExHeader {
    /// the header is what ex says.
    pub open spec fn describes(self, ex: Seq<u8>) -> bool {
        &&& self.title@ == text::zero_ended(ex.take(8))
        &&& self.compress_code == (ex[0x0D] & 1 != 0)
        &&& self.text == code_set(ex, 0x10)
        &&& self.rodata == code_set(ex, 0x20)
        &&& self.data == code_set(ex, 0x30)
        &&& self.bss_size == bytes::le32(ex, 0x3C)
    }

    pub fn read(ex: &[u8]) -> (header: ExHeader)
        requires
            ex@.len() >= 0x40,
        ensures
            header.describes(ex@),
    {
        assert(ex@.subrange(0, 8) =~= ex@.take(8));
        ExHeader {
            title: text::ascii(vstd::slice::slice_subrange(ex, 0, 8)),
            compress_code: ex[0x0D] & 1 != 0,
            text: CodeSetInfo::read(ex, 0x10),
            rodata: CodeSetInfo::read(ex, 0x20),
            data: CodeSetInfo::read(ex, 0x30),
            bss_size: bytes::u32_at(ex, 0x3C),
        }
    }
}

/// offsets and sizes in NCSD and NCCH headers count these.
pub const MEDIA_UNIT: u64 = 0x200;

pub const NCCH_HEADER_SIZE: u64 = 0x200;

pub const EXEFS_HEADER_SIZE: u64 = 0x200;

/// the bytes of the magic words that say what a header is.
pub open spec fn ncsd() -> Seq<u8> {
    seq![0x4Eu8, 0x43u8, 0x53u8, 0x44u8]
}

pub open spec fn ncch() -> Seq<u8> {
    seq![0x4Eu8, 0x43u8, 0x43u8, 0x48u8]
}

pub open spec fn ivfc() -> Seq<u8> {
    seq![0x49u8, 0x56u8, 0x46u8, 0x43u8]
}

/// the four bytes at offset are a, b, c and d.
pub fn magic(bytes: &[u8], offset: usize, a: u8, b: u8, c: u8, d: u8) -> (same: bool)
    requires
        offset + 4 <= bytes@.len(),
    ensures
        same == (bytes@.subrange(offset as int, offset + 4) == seq![a, b, c, d]),
{
    assert(offset + 4 <= bytes.len());
    let same = bytes[offset] == a && bytes[offset + 1] == b && bytes[offset + 2] == c
        && bytes[offset + 3] == d;
    let ghost word = bytes@.subrange(offset as int, offset + 4);
    proof {
        if same {
            assert(word =~= seq![a, b, c, d]);
        } else {
            assert(word[0] == bytes@[offset as int]);
            assert(word[1] == bytes@[offset + 1]);
            assert(word[2] == bytes@[offset + 2]);
            assert(word[3] == bytes@[offset + 3]);
            let wanted = seq![a, b, c, d];
            assert(wanted[0] == a && wanted[1] == b && wanted[2] == c && wanted[3] == d);
        }
    }
    same
}

/// where the executable partition starts, from the first 0x200 bytes of a
/// dump. a cartridge image holds the executable as its first partition, a
/// .cxi is that partition by itself.
pub open spec fn partition_offset(start: Seq<u8>) -> Result<u64, Seq<char>> {
    let word = start.subrange(0x100, 0x104);
    if word == ncsd() {
        Ok((bytes::le32(start, 0x120) * MEDIA_UNIT) as u64)
    } else if word == ncch() {
        Ok(0u64)
    } else {
        Err("not a 3DS cartridge image or executable"@)
    }
}

fn find_partition(start: &[u8]) -> (result: Result<u64, Error>)
    requires
        start@.len() == 0x200,
    ensures
        match partition_offset(start@) {
            Ok(offset) => result matches Ok(found) && found == offset,
            Err(message) => result matches Err(error) && error@ == message,
        },
        result matches Ok(found) ==> found <= 0x1FF_FFFF_FE00,
{
    if magic(start, 0x100, 0x4E, 0x43, 0x53, 0x44) {
        Ok(bytes::u32_at(start, 0x120) as u64 * MEDIA_UNIT)
    } else if magic(start, 0x100, 0x4E, 0x43, 0x43, 0x48) {
        assert(ncch() != ncsd()) by {
            assert(ncch()[2] != ncsd()[2]);
        }
        Ok(0)
    } else {
        error("not a 3DS cartridge image or executable")
    }
}

/// what the header of the executable partition says of the rest.
#[derive(Debug, Clone, Copy, PartialEq, Eq, Structural)]
pub struct Partition {
    /// where the partition is in the dump.
    pub ncch: u64,
    pub program_id: u64,
    /// where its ExeFS is in the dump.
    pub exefs: u64,
    /// where its RomFS is in the dump, if it has one.
    pub romfs: Option<u64>,
}

impl Partition {
    /// everything is where 32 bits of media units can say.
    pub open spec fn wf(self) -> bool {
        &&& self.ncch <= 0x1FF_FFFF_FE00
        &&& self.exefs <= 0x3FF_FFFF_FC00
        &&& self.romfs matches Some(romfs) ==> romfs <= 0x3FF_FFFF_FC00
    }
}

/// the partition at offset, from its header.
pub open spec fn partition_at(offset: u64, header: Seq<u8>) -> Result<Partition, Seq<char>> {
    let crypto = header[0x18B];
    let flags = header[0x18F];
    if header.subrange(0x100, 0x104) != ncch() {
        Err("the executable partition has no NCCH header"@)
    } else if flags & 0x04 == 0 && crypto != 0 {
        // the partition is readable as it is when it says so, or when it was
        // never encrypted
        Err("the dump is encrypted, it has to be decrypted first"@)
    } else {
        Ok(
            Partition {
                ncch: offset,
                program_id: bytes::le64(header, 0x118),
                exefs: (offset + bytes::le32(header, 0x1A0) * MEDIA_UNIT) as u64,
                romfs: if bytes::le32(header, 0x1B4) != 0 && flags & 0x02 == 0 {
                    Some((offset + bytes::le32(header, 0x1B0) * MEDIA_UNIT) as u64)
                } else {
                    None
                },
            },
        )
    }
}

fn read_partition(offset: u64, header: &[u8]) -> (result: Result<Partition, Error>)
    requires
        header@.len() == 0x200,
        offset <= 0x1FF_FFFF_FE00,
    ensures
        match partition_at(offset, header@) {
            Ok(partition) => result matches Ok(found) && found == partition,
            Err(message) => result matches Err(error) && error@ == message,
        },
        result matches Ok(found) ==> found.wf(),
{
    if !magic(header, 0x100, 0x4E, 0x43, 0x43, 0x48) {
        return error("the executable partition has no NCCH header");
    }
    let crypto = header[0x18B];
    let flags = header[0x18F];
    if flags & 0x04 == 0 && crypto != 0 {
        return error("the dump is encrypted, it has to be decrypted first");
    }
    let program_id = bytes::u64_at(header, 0x118);
    let exefs = offset + bytes::u32_at(header, 0x1A0) as u64 * MEDIA_UNIT;
    let romfs = offset + bytes::u32_at(header, 0x1B0) as u64 * MEDIA_UNIT;
    let has_romfs = bytes::u32_at(header, 0x1B4) != 0 && flags & 0x02 == 0;
    Ok(
        Partition {
            ncch: offset,
            program_id,
            exefs,
            romfs: if has_romfs {
                Some(romfs)
            } else {
                None
            },
        },
    )
}

/// the bytes of the name .code.
pub open spec fn dot_code() -> Seq<u8> {
    seq![0x2Eu8, 0x63u8, 0x6Fu8, 0x64u8, 0x65u8]
}

/// the entry of an ExeFS table is named .code.
pub open spec fn names_code(table: Seq<u8>, entry: int) -> bool {
    text::until_zero(table.subrange(16 * entry, 16 * entry + 8)) == dot_code()
}

/// the first entry from entry on that is named .code, of ten.
pub open spec fn code_entry(table: Seq<u8>, entry: nat) -> Option<nat>
    decreases 10 - entry,
{
    if entry >= 10 {
        None
    } else if names_code(table, entry as int) {
        Some(entry)
    } else {
        code_entry(table, entry + 1)
    }
}

/// where .code is in the dump and how big, from the header of the ExeFS at
/// exefs, which lists ten files, a name, an offset past the header and a size
/// each.
pub open spec fn code_extent(exefs: u64, table: Seq<u8>) -> Option<(u64, u64)> {
    match code_entry(table, 0) {
        Some(entry) => Some(
            (
                (exefs + EXEFS_HEADER_SIZE + bytes::le32(table, 16 * entry as int + 8)) as u64,
                bytes::le32(table, 16 * entry as int + 12) as u64,
            ),
        ),
        None => None,
    }
}

/// whether the name of an ExeFS entry is .code.
fn is_dot_code(name: &[u8]) -> (same: bool)
    requires
        name@.len() == 8,
    ensures
        same == (text::until_zero(name@) == dot_code()),
{
    let same = name[0] == 0x2E && name[1] == 0x63 && name[2] == 0x6F && name[3] == 0x64 && name[4]
        == 0x65 && name[5] == 0;
    proof {
        text::law_until_zero(name@);
        let found = text::until_zero(name@);
        if same {
            assert(found.len() <= 5) by {
                if found.len() > 5 {
                    assert(name@[5] != 0);
                }
            }
            assert(found.len() == 5) by {
                if found.len() < 5 {
                    assert(name@[found.len() as int] == 0);
                }
            }
            assert(found =~= dot_code());
        }
        if found == dot_code() {
            assert(found.len() == 5);
            assert(found[0] == 0x2E && found[1] == 0x63 && found[2] == 0x6F && found[3] == 0x64
                && found[4] == 0x65);
        }
    }
    same
}

fn find_code(exefs: u64, table: &[u8]) -> (code: Option<(u64, u64)>)
    requires
        table@.len() == 0x200,
        exefs <= 0x3FF_FFFF_FC00,
    ensures
        code == code_extent(exefs, table@),
{
    let mut entry: usize = 0;
    while entry < 10
        invariant
            entry <= 10,
            table@.len() == 0x200,
            exefs <= 0x3FF_FFFF_FC00,
            code_entry(table@, 0) == code_entry(table@, entry as nat),
        decreases 10 - entry,
    {
        let at = 16 * entry;
        if is_dot_code(vstd::slice::slice_subrange(table, at, at + 8)) {
            return Some(
                (
                    exefs + EXEFS_HEADER_SIZE + bytes::u32_at(table, at + 8) as u64,
                    bytes::u32_at(table, at + 12) as u64,
                ),
            );
        }
        entry += 1;
    }
    None
}

/// the RomFS tables' mark for no entry.
pub const NONE: u32 = 0xFFFF_FFFF;

#[derive(Debug, Clone)]
pub struct DirEntry {
    pub first_child: u32,
    pub first_file: u32,
    pub next_sibling: u32,
    pub name: String,
}

#[derive(Debug, Clone)]
pub struct FileEntry {
    pub next_sibling: u32,
    /// where its bytes start in the file data.
    pub data_offset: u64,
    pub data_size: u64,
    pub name: String,
}

/// a folder of a RomFS.
#[verifier::ext_equal]
pub struct Folder {
    pub first_child: u32,
    pub first_file: u32,
    pub next_sibling: u32,
    pub name: Seq<char>,
}

/// a file of a RomFS.
#[verifier::ext_equal]
pub struct Filed {
    pub next_sibling: u32,
    pub data_offset: u64,
    pub data_size: u64,
    pub name: Seq<char>,
}

impl View for DirEntry {
    type V = Folder;

    open spec fn view(&self) -> Folder {
        Folder {
            first_child: self.first_child,
            first_file: self.first_file,
            next_sibling: self.next_sibling,
            name: self.name@,
        }
    }
}

impl View for FileEntry {
    type V = Filed;

    open spec fn view(&self) -> Filed {
        Filed {
            next_sibling: self.next_sibling,
            data_offset: self.data_offset,
            data_size: self.data_size,
            name: self.name@,
        }
    }
}

/// the directory tree of a RomFS, the tables read in, the files left in
/// the dump.
pub struct RomFs {
    /// where the file data starts in the dump.
    pub data: u64,
    pub dirs: Vec<u8>,
    pub files: Vec<u8>,
}

/// the folder at offset in the table, when all of it is there.
pub open spec fn dir_at(dirs: Seq<u8>, offset: u32) -> Option<Folder> {
    let at = offset as int;
    let length = bytes::le32(dirs, at + 0x14);
    if at + 0x18 > dirs.len() || at + 0x18 + length > dirs.len() {
        None
    } else {
        Some(
            Folder {
                next_sibling: bytes::le32(dirs, at + 0x04),
                first_child: bytes::le32(dirs, at + 0x08),
                first_file: bytes::le32(dirs, at + 0x0C),
                name: text::utf16_text(
                    text::units_of(dirs.subrange(at + 0x18, at + 0x18 + length)),
                ),
            },
        )
    }
}

/// the file at offset in the table, when all of it is there.
pub open spec fn file_at(files: Seq<u8>, offset: u32) -> Option<Filed> {
    let at = offset as int;
    let length = bytes::le32(files, at + 0x1C);
    if at + 0x20 > files.len() || at + 0x20 + length > files.len() {
        None
    } else {
        Some(
            Filed {
                next_sibling: bytes::le32(files, at + 0x04),
                data_offset: bytes::le64(files, at + 0x08),
                data_size: bytes::le64(files, at + 0x10),
                name: text::utf16_text(
                    text::units_of(files.subrange(at + 0x20, at + 0x20 + length)),
                ),
            },
        )
    }
}

/// the folders from cursor on, each with where it is in the table, up to
/// most of them.
pub open spec fn dir_chain(dirs: Seq<u8>, cursor: u32, most: nat) -> Seq<(u32, Folder)>
    decreases most,
{
    if most == 0 || cursor == NONE {
        Seq::empty()
    } else {
        match dir_at(dirs, cursor) {
            Some(dir) => seq![(cursor, dir)] + dir_chain(dirs, dir.next_sibling, (most - 1) as nat),
            None => Seq::empty(),
        }
    }
}

/// the files from cursor on, each with where it is in the table, up to most
/// of them.
pub open spec fn file_chain(files: Seq<u8>, cursor: u32, most: nat) -> Seq<(u32, Filed)>
    decreases most,
{
    if most == 0 || cursor == NONE {
        Seq::empty()
    } else {
        match file_at(files, cursor) {
            Some(file) => seq![(cursor, file)] + file_chain(
                files,
                file.next_sibling,
                (most - 1) as nat,
            ),
            None => Seq::empty(),
        }
    }
}

pub open spec fn dir_views(list: Seq<(u32, DirEntry)>) -> Seq<(u32, Folder)> {
    list.map_values(|entry: (u32, DirEntry)| (entry.0, entry.1@))
}

pub open spec fn file_views(list: Seq<(u32, FileEntry)>) -> Seq<(u32, Filed)> {
    list.map_values(|entry: (u32, FileEntry)| (entry.0, entry.1@))
}

/// the first folder in list with that name, the case ignored.
pub open spec fn dir_named(list: Seq<(u32, Folder)>, name: Seq<char>) -> Option<Folder>
    decreases list.len(),
{
    if list.len() == 0 {
        None
    } else if text::lowered(list[0].1.name) == text::lowered(name) {
        Some(list[0].1)
    } else {
        dir_named(list.skip(1), name)
    }
}

/// the first file in list with that name, the case ignored.
pub open spec fn file_named(list: Seq<(u32, Filed)>, name: Seq<char>) -> Option<Filed>
    decreases list.len(),
{
    if list.len() == 0 {
        None
    } else if text::lowered(list[0].1.name) == text::lowered(name) {
        Some(list[0].1)
    } else {
        file_named(list.skip(1), name)
    }
}

impl RomFs {
    /// the folders in dir. a table has no more folders than bytes.
    pub open spec fn folders(self, dir: Folder) -> Seq<(u32, Folder)> {
        dir_chain(self.dirs@, dir.first_child, self.dirs@.len())
    }

    /// the files in dir. a table has no more files than bytes.
    pub open spec fn filed(self, dir: Folder) -> Seq<(u32, Filed)> {
        file_chain(self.files@, dir.first_file, self.files@.len())
    }

    /// where paths start. the contents hang off a nameless folder under the
    /// root, which no path spells out.
    pub open spec fn top(self, root: Folder) -> Folder {
        match dir_named(self.folders(root), Seq::empty()) {
            Some(nameless) => nameless,
            None => root,
        }
    }

    /// the folder that parts lead to from dir.
    pub open spec fn descended(self, dir: Folder, parts: Seq<Seq<char>>) -> Option<Folder>
        decreases parts.len(),
    {
        if parts.len() == 0 {
            Some(dir)
        } else {
            match dir_named(self.folders(dir), parts[0]) {
                Some(next) => self.descended(next, parts.skip(1)),
                None => None,
            }
        }
    }

    /// the file at path, or what went wrong.
    pub open spec fn looked_up(self, path: Seq<char>) -> Result<Filed, Seq<char>> {
        let parts = text::parts_of(path);
        let missing = path + " is not in the RomFS"@;
        match dir_at(self.dirs@, 0) {
            None => Err("the RomFS has no root"@),
            Some(root) => if parts.len() == 0 {
                Err(missing)
            } else {
                match self.descended(self.top(root), parts.drop_last()) {
                    None => Err(missing),
                    Some(dir) => match file_named(self.filed(dir), parts.last()) {
                        None => Err(missing),
                        Some(file) => Ok(file),
                    },
                }
            },
        }
    }

    fn dir(&self, offset: u32) -> (dir: Option<DirEntry>)
        ensures
            dir is Some <==> dir_at(self.dirs@, offset) is Some,
            dir matches Some(found) ==> found@ == dir_at(self.dirs@, offset)->0,
    {
        let at = offset as u64;
        let size = self.dirs.len() as u64;
        if at + 0x18 > size {
            return None;
        }
        let entry = offset as usize;
        let table = self.dirs.as_slice();
        let length = bytes::u32_at(table, entry + 0x14) as u64;
        let name = match bytes::part(table, at + 0x18, at + 0x18 + length) {
            Some(name) => text::utf16(name),
            None => return None,
        };
        Some(
            DirEntry {
                next_sibling: bytes::u32_at(table, entry + 0x04),
                first_child: bytes::u32_at(table, entry + 0x08),
                first_file: bytes::u32_at(table, entry + 0x0C),
                name,
            },
        )
    }

    fn file(&self, offset: u32) -> (file: Option<FileEntry>)
        ensures
            file is Some <==> file_at(self.files@, offset) is Some,
            file matches Some(found) ==> found@ == file_at(self.files@, offset)->0,
    {
        let at = offset as u64;
        let size = self.files.len() as u64;
        if at + 0x20 > size {
            return None;
        }
        let entry = offset as usize;
        let table = self.files.as_slice();
        let length = bytes::u32_at(table, entry + 0x1C) as u64;
        let name = match bytes::part(table, at + 0x20, at + 0x20 + length) {
            Some(name) => text::utf16(name),
            None => return None,
        };
        Some(
            FileEntry {
                next_sibling: bytes::u32_at(table, entry + 0x04),
                data_offset: bytes::u64_at(table, entry + 0x08),
                data_size: bytes::u64_at(table, entry + 0x10),
                name,
            },
        )
    }

    pub fn root(&self) -> (result: Result<DirEntry, Error>)
        ensures
            match dir_at(self.dirs@, 0) {
                Some(root) => result matches Ok(dir) && dir@ == root,
                None => result matches Err(error) && error@ == "the RomFS has no root"@,
            },
    {
        match self.dir(0) {
            Some(dir) => Ok(dir),
            None => error("the RomFS has no root"),
        }
    }

    /// the folders in dir, with where each is in the table.
    pub fn subdirs(&self, dir: &DirEntry) -> (list: Vec<(u32, DirEntry)>)
        ensures
            dir_views(list@) == self.folders(dir@),
    {
        let mut list: Vec<(u32, DirEntry)> = Vec::new();
        let mut cursor = dir.first_child;
        let mut left = self.dirs.len();
        let ghost whole = self.folders(dir@);
        assert(dir_views(list@) + whole =~= whole);
        while left > 0 && cursor != NONE
            invariant_except_break
                dir_views(list@) + dir_chain(self.dirs@, cursor, left as nat) == whole,
            ensures
                dir_views(list@) == whole,
            decreases left,
        {
            let ghost before = dir_views(list@);
            let entry = match self.dir(cursor) {
                Some(entry) => entry,
                None => {
                    assert(before + Seq::empty() =~= before);
                    break;
                },
            };
            let next = entry.next_sibling;
            let ghost folder = entry@;
            list.push((cursor, entry));
            proof {
                assert(dir_views(list@) =~= before.push((cursor, folder)));
                let rest = dir_chain(self.dirs@, next, (left - 1) as nat);
                assert(before + (seq![(cursor, folder)] + rest) =~= dir_views(list@) + rest);
            }
            cursor = next;
            left -= 1;
            proof {
                if !(left > 0 && cursor != NONE) {
                    assert(dir_views(list@) + Seq::empty() =~= dir_views(list@));
                }
            }
        }
        list
    }

    /// the files in dir, with where each is in the table.
    pub fn files(&self, dir: &DirEntry) -> (list: Vec<(u32, FileEntry)>)
        ensures
            file_views(list@) == self.filed(dir@),
    {
        let mut list: Vec<(u32, FileEntry)> = Vec::new();
        let mut cursor = dir.first_file;
        let mut left = self.files.len();
        let ghost whole = self.filed(dir@);
        assert(file_views(list@) + whole =~= whole);
        while left > 0 && cursor != NONE
            invariant_except_break
                file_views(list@) + file_chain(self.files@, cursor, left as nat) == whole,
            ensures
                file_views(list@) == whole,
            decreases left,
        {
            let ghost before = file_views(list@);
            let entry = match self.file(cursor) {
                Some(entry) => entry,
                None => {
                    assert(before + Seq::empty() =~= before);
                    break;
                },
            };
            let next = entry.next_sibling;
            let ghost filed = entry@;
            list.push((cursor, entry));
            proof {
                assert(file_views(list@) =~= before.push((cursor, filed)));
                let rest = file_chain(self.files@, next, (left - 1) as nat);
                assert(before + (seq![(cursor, filed)] + rest) =~= file_views(list@) + rest);
            }
            cursor = next;
            left -= 1;
            proof {
                if !(left > 0 && cursor != NONE) {
                    assert(file_views(list@) + Seq::empty() =~= file_views(list@));
                }
            }
        }
        list
    }

    /// a file by its path, / separated, the case ignored.
    pub fn lookup(&self, path: &str) -> (result: Result<FileEntry, Error>)
        ensures
            match self.looked_up(path@) {
                Ok(filed) => result matches Ok(file) && file@ == filed,
                Err(message) => result matches Err(error) && error@ == message,
            },
    {
        let mut dir = match self.root() {
            Ok(root) => root,
            Err(error) => return Err(error),
        };
        let nameless: Vec<char> = Vec::new();
        if let Some(top) = find_dir(self.subdirs(&dir), &nameless) {
            dir = top;
        }
        let parts = text::split_path(path);
        let ghost names = text::parts_of(path@);
        if parts.len() == 0 {
            return missing(path);
        }
        let last = parts.len() - 1;
        let ghost top = dir@;
        let mut i: usize = 0;
        assert(names.drop_last().skip(0) =~= names.drop_last());
        while i < last
            invariant
                i <= last,
                last == parts@.len() - 1,
                names == text::parts_of(path@),
                names == text::views(parts@),
                names.len() > 0,
                self.looked_up(path@) == (match self.descended(top, names.drop_last()) {
                    None => Err(path@ + " is not in the RomFS"@),
                    Some(folder) => match file_named(self.filed(folder), names.last()) {
                        None => Err(path@ + " is not in the RomFS"@),
                        Some(file) => Ok(file),
                    },
                }),
                self.descended(top, names.drop_last()) == self.descended(
                    dir@,
                    names.drop_last().skip(i as int),
                ),
            decreases last - i,
        {
            let ghost left = names.drop_last().skip(i as int);
            assert(left[0] == parts@[i as int]@);
            assert(left.skip(1) =~= names.drop_last().skip(i + 1));
            match find_dir(self.subdirs(&dir), &parts[i]) {
                Some(next) => {
                    dir = next;
                },
                None => return missing(path),
            }
            i += 1;
        }
        assert(names.drop_last().skip(i as int).len() == 0);
        assert(names.last() == parts@[last as int]@);
        match find_file(self.files(&dir), &parts[last]) {
            Some(file) => Ok(file),
            None => missing(path),
        }
    }
}

fn missing<T>(path: &str) -> (failed: Result<T, Error>)
    ensures
        failed matches Err(error) && error@ == path@ + " is not in the RomFS"@,
{
    let mut message = path.to_owned();
    message.append(" is not in the RomFS");
    Err(Error(message))
}

/// the first folder in list with that name, the case ignored.
fn find_dir(entries: Vec<(u32, DirEntry)>, name: &Vec<char>) -> (found: Option<DirEntry>)
    ensures
        found is Some <==> dir_named(dir_views(entries@), name@) is Some,
        found matches Some(dir) ==> dir@ == dir_named(dir_views(entries@), name@)->0,
{
    let mut list = entries;
    let ghost folders = dir_views(list@);
    let mut i: usize = 0;
    assert(folders.skip(0) =~= folders);
    while i < list.len()
        invariant
            i <= list@.len(),
            folders == dir_views(list@),
            folders == dir_views(entries@),
            dir_named(folders, name@) == dir_named(folders.skip(i as int), name@),
        decreases list@.len() - i,
    {
        let ghost left = folders.skip(i as int);
        assert(left[0] == folders[i as int]);
        assert(left.skip(1) =~= folders.skip(i + 1));
        let letters = text::characters(list[i].1.name.as_str());
        if text::same_text(&letters, name) {
            let (_, dir) = list.remove(i);
            return Some(dir);
        }
        i += 1;
    }
    None
}

/// the first file in list with that name, the case ignored.
fn find_file(entries: Vec<(u32, FileEntry)>, name: &Vec<char>) -> (found: Option<FileEntry>)
    ensures
        found is Some <==> file_named(file_views(entries@), name@) is Some,
        found matches Some(file) ==> file@ == file_named(file_views(entries@), name@)->0,
{
    let mut list = entries;
    let ghost filed = file_views(list@);
    let mut i: usize = 0;
    assert(filed.skip(0) =~= filed);
    while i < list.len()
        invariant
            i <= list@.len(),
            filed == file_views(list@),
            filed == file_views(entries@),
            file_named(filed, name@) == file_named(filed.skip(i as int), name@),
        decreases list@.len() - i,
    {
        let ghost left = filed.skip(i as int);
        assert(left[0] == filed[i as int]);
        assert(left.skip(1) =~= filed.skip(i + 1));
        let letters = text::characters(list[i].1.name.as_str());
        if text::same_text(&letters, name) {
            let (_, file) = list.remove(i);
            return Some(file);
        }
        i += 1;
    }
    None
}

/// the entry after the one at cursor, if there is an entry at cursor.
pub open spec fn dir_after(dirs: Seq<u8>) -> spec_fn(u32) -> Option<u32> {
    |cursor: u32|
        if cursor == NONE {
            None
        } else {
            match dir_at(dirs, cursor) {
                Some(dir) => Some(dir.next_sibling),
                None => None,
            }
        }
}

/// the entry after the one at cursor, if there is an entry at cursor.
pub open spec fn file_after(files: Seq<u8>) -> spec_fn(u32) -> Option<u32> {
    |cursor: u32|
        if cursor == NONE {
            None
        } else {
            match file_at(files, cursor) {
                Some(file) => Some(file.next_sibling),
                None => None,
            }
        }
}

/// the chain from cursor ends within count entries.
pub open spec fn ends_within(after: spec_fn(u32) -> Option<u32>, cursor: u32, count: nat) -> bool
    decreases count,
{
    match after(cursor) {
        None => true,
        Some(next) => count > 0 && ends_within(after, next, (count - 1) as nat),
    }
}

/// the entry count places down the chain.
spec fn down(after: spec_fn(u32) -> Option<u32>, cursor: u32, count: nat) -> u32
    decreases count,
{
    if count == 0 {
        cursor
    } else {
        match after(down(after, cursor, (count - 1) as nat)) {
            Some(next) => next,
            None => 0,
        }
    }
}

proof fn lemma_ends_down(after: spec_fn(u32) -> Option<u32>, cursor: u32, count: nat, steps: nat)
    requires
        ends_within(after, cursor, count),
        forall|i: nat| i < steps ==> after(#[trigger] down(after, cursor, i)) is Some,
    ensures
        steps <= count,
        ends_within(after, down(after, cursor, steps), (count - steps) as nat),
    decreases steps,
{
    if steps > 0 {
        lemma_ends_down(after, cursor, count, (steps - 1) as nat);
        assert(after(down(after, cursor, (steps - 1) as nat)) is Some);
    }
}

proof fn lemma_down_ends(after: spec_fn(u32) -> Option<u32>, cursor: u32, count: nat, steps: nat)
    requires
        forall|i: nat| i < steps ==> after(#[trigger] down(after, cursor, i)) is Some,
        ends_within(after, down(after, cursor, steps), count),
    ensures
        ends_within(after, cursor, count + steps),
    decreases steps,
{
    if steps > 0 {
        assert(after(down(after, cursor, (steps - 1) as nat)) is Some);
        lemma_down_ends(after, cursor, count + 1, (steps - 1) as nat);
    }
}

/// entries that are all below bound and none of which repeats are at most
/// bound.
proof fn lemma_distinct_below(entries: Seq<u32>, bound: nat)
    requires
        forall|i: int| 0 <= i < entries.len() ==> entries[i] < bound,
        entries.no_duplicates(),
    ensures
        entries.len() <= bound,
{
    entries.unique_seq_to_set();
    let numbers = entries.to_set().map(|entry: u32| entry as int);
    let below = vstd::set_lib::set_int_range(0, bound as int);
    vstd::set_lib::lemma_int_range(0, bound as int);
    assert(numbers.subset_of(below));
    vstd::set_lib::lemma_map_size(entries.to_set(), numbers, |entry: u32| entry as int);
    vstd::set_lib::lemma_len_subset(numbers, below);
}

/// a chain through entries below bound that ends at all ends within bound.
proof fn lemma_chain_bound(
    after: spec_fn(u32) -> Option<u32>,
    bound: nat,
    cursor: u32,
    count: nat,
)
    requires
        forall|at: u32| #[trigger] after(at) is Some ==> at < bound,
        ends_within(after, cursor, count),
    ensures
        ends_within(after, cursor, bound),
    decreases count,
{
    if count <= bound {
        lemma_ends_longer(after, cursor, count, bound);
    } else if exists|n: nat| n <= bound && after(#[trigger] down(after, cursor, n)) is None {
        lemma_end_found(after, cursor, bound);
    } else {
        let entries = Seq::new(bound + 1, |i: int| down(after, cursor, i as nat));
        assert forall|i: int| 0 <= i < entries.len() implies entries[i] < bound by {
            assert(after(down(after, cursor, i as nat)) is Some);
        }
        if entries.no_duplicates() {
            lemma_distinct_below(entries, bound);
        } else {
            let (i, j) = choose|i: int, j: int|
                0 <= i < j < entries.len() && entries[i] == entries[j];
            lemma_ends_down(after, cursor, count, j as nat);
            lemma_down_ends(after, cursor, (count - j) as nat, i as nat);
            lemma_chain_bound(after, bound, cursor, (count - j + i) as nat);
        }
    }
}

proof fn lemma_end_found(after: spec_fn(u32) -> Option<u32>, cursor: u32, bound: nat)
    requires
        exists|n: nat| n <= bound && after(#[trigger] down(after, cursor, n)) is None,
    ensures
        ends_within(after, cursor, bound),
{
    let n = choose|n: nat| n <= bound && after(#[trigger] down(after, cursor, n)) is None;
    let first = lemma_first_end(after, cursor, n);
    assert(ends_within(after, down(after, cursor, first), 0));
    lemma_down_ends(after, cursor, 0, first);
    lemma_ends_longer(after, cursor, first, bound);
}

proof fn lemma_first_end(after: spec_fn(u32) -> Option<u32>, cursor: u32, n: nat) -> (first: nat)
    requires
        after(down(after, cursor, n)) is None,
    ensures
        first <= n,
        after(down(after, cursor, first)) is None,
        forall|i: nat| i < first ==> after(#[trigger] down(after, cursor, i)) is Some,
    decreases n,
{
    if exists|i: nat| i < n && after(#[trigger] down(after, cursor, i)) is None {
        let i = choose|i: nat| i < n && after(#[trigger] down(after, cursor, i)) is None;
        lemma_first_end(after, cursor, i)
    } else {
        n
    }
}

proof fn lemma_ends_longer(
    after: spec_fn(u32) -> Option<u32>,
    cursor: u32,
    count: nat,
    longer: nat,
)
    requires
        ends_within(after, cursor, count),
        count <= longer,
    ensures
        ends_within(after, cursor, longer),
    decreases count,
{
    if let Some(next) = after(cursor) {
        lemma_ends_longer(after, next, (count - 1) as nat, (longer - 1) as nat);
    }
}

/// folders whose chain ends are all listed, however many are asked for past
/// their number.
pub proof fn law_folders_are_whole(dirs: Seq<u8>, cursor: u32, count: nat, most: nat)
    requires
        ends_within(dir_after(dirs), cursor, count),
        most >= dirs.len(),
    ensures
        ends_within(dir_after(dirs), cursor, dirs.len()),
        dir_chain(dirs, cursor, most) == dir_chain(dirs, cursor, dirs.len()),
{
    lemma_chain_bound(dir_after(dirs), dirs.len(), cursor, count);
    lemma_dir_chain_whole(dirs, cursor, dirs.len(), most);
}

proof fn lemma_dir_chain_whole(dirs: Seq<u8>, cursor: u32, count: nat, most: nat)
    requires
        ends_within(dir_after(dirs), cursor, count),
        most >= count,
    ensures
        dir_chain(dirs, cursor, most) == dir_chain(dirs, cursor, count),
    decreases count,
{
    if let Some(next) = dir_after(dirs)(cursor) {
        lemma_dir_chain_whole(dirs, next, (count - 1) as nat, (most - 1) as nat);
    }
}

/// files whose chain ends are all listed, however many are asked for past
/// their number.
pub proof fn law_files_are_whole(files: Seq<u8>, cursor: u32, count: nat, most: nat)
    requires
        ends_within(file_after(files), cursor, count),
        most >= files.len(),
    ensures
        ends_within(file_after(files), cursor, files.len()),
        file_chain(files, cursor, most) == file_chain(files, cursor, files.len()),
{
    lemma_chain_bound(file_after(files), files.len(), cursor, count);
    lemma_file_chain_whole(files, cursor, files.len(), most);
}

proof fn lemma_file_chain_whole(files: Seq<u8>, cursor: u32, count: nat, most: nat)
    requires
        ends_within(file_after(files), cursor, count),
        most >= count,
    ensures
        file_chain(files, cursor, most) == file_chain(files, cursor, count),
    decreases count,
{
    if let Some(next) = file_after(files)(cursor) {
        lemma_file_chain_whole(files, next, (count - 1) as nat, (most - 1) as nat);
    }
}

/// the smallest multiple of block that value does not pass.
pub open spec fn round_up(value: int, block: int) -> int {
    (value + block - 1) / block * block
}

/// where the level 3 tables of the RomFS at offset start, from its IVFC
/// header. they come after the header and the master hash, on a block of
/// their own size.
pub open spec fn level3_offset(offset: u64, header: Seq<u8>) -> Result<u64, Seq<char>> {
    let shift = bytes::le32(header, 0x4C);
    let block = 1u64 << if shift < 31 {
        shift
    } else {
        31u32
    };
    if header.subrange(0, 4) != ivfc() {
        Err("the RomFS has no IVFC header"@)
    } else {
        Ok((offset + round_up(0x60 + bytes::le32(header, 0x08), block as int)) as u64)
    }
}

proof fn lemma_round_up(value: int, block: int)
    requires
        0 < block,
    ensures
        value <= round_up(value, block) < value + block,
{
    let up = value + block - 1;
    vstd::arithmetic::div_mod::lemma_fundamental_div_mod(up, block);
    vstd::arithmetic::mul::lemma_mul_is_commutative(block, up / block);
    vstd::arithmetic::div_mod::lemma_mod_bound(up, block);
}

proof fn lemma_block(shift: u32)
    by (bit_vector)
    requires
        shift <= 31,
    ensures
        1u64 << shift >= 1,
        1u64 << shift <= 0x8000_0000,
{
}

fn find_level3(offset: u64, header: &[u8]) -> (result: Result<u64, Error>)
    requires
        header@.len() == 0x60,
        offset <= 0x3FF_FFFF_FC00,
    ensures
        match level3_offset(offset, header@) {
            Ok(level3) => result matches Ok(found) && found == level3,
            Err(message) => result matches Err(error) && error@ == message,
        },
        result matches Ok(found) ==> found <= 0x7FF_FFFF_FFFF,
{
    if !magic(header, 0, 0x49, 0x56, 0x46, 0x43) {
        return error("the RomFS has no IVFC header");
    }
    let master_hash = bytes::u32_at(header, 0x08) as u64;
    let shift = bytes::u32_at(header, 0x4C);
    let shift = if shift < 31 {
        shift
    } else {
        31
    };
    proof {
        lemma_block(shift);
    }
    let block = 1u64 << shift;
    proof {
        lemma_round_up(0x60 + master_hash, block as int);
    }
    let blocks = (0x60 + master_hash + block - 1) / block;
    assert(blocks * block == round_up(0x60 + master_hash, block as int));
    Ok(offset + blocks * block)
}

/// where the tables and the file data of a RomFS are in the dump.
#[derive(Debug, Clone, Copy)]
pub struct Level3 {
    pub dirs: (u64, u32),
    pub files: (u64, u32),
    pub data: u64,
}

/// what the header of the level 3 tables at offset says.
pub open spec fn level3_at(offset: u64, header: Seq<u8>) -> Result<Level3, Seq<char>> {
    if bytes::le32(header, 0) != 0x28 {
        Err("the RomFS level 3 header is not 0x28 bytes"@)
    } else {
        Ok(
            Level3 {
                dirs: (
                    (offset + bytes::le32(header, 0x0C)) as u64,
                    bytes::le32(header, 0x10),
                ),
                files: (
                    (offset + bytes::le32(header, 0x1C)) as u64,
                    bytes::le32(header, 0x20),
                ),
                data: (offset + bytes::le32(header, 0x24)) as u64,
            },
        )
    }
}

fn read_level3(offset: u64, header: &[u8]) -> (result: Result<Level3, Error>)
    requires
        header@.len() == 0x28,
        offset <= 0x7FF_FFFF_FFFF,
    ensures
        match level3_at(offset, header@) {
            Ok(level3) => result matches Ok(found) && found == level3,
            Err(message) => result matches Err(error) && error@ == message,
        },
{
    if bytes::u32_at(header, 0) != 0x28 {
        return error("the RomFS level 3 header is not 0x28 bytes");
    }
    Ok(
        Level3 {
            dirs: (offset + bytes::u32_at(header, 0x0C) as u64, bytes::u32_at(header, 0x10)),
            files: (offset + bytes::u32_at(header, 0x1C) as u64, bytes::u32_at(header, 0x20)),
            data: offset + bytes::u32_at(header, 0x24) as u64,
        },
    )
}

proof fn lemma_names_ignore_case(
    folders: Seq<(u32, Folder)>,
    files: Seq<(u32, Filed)>,
    name: Seq<char>,
    other: Seq<char>,
)
    requires
        text::lowered(name) == text::lowered(other),
    ensures
        dir_named(folders, name) == dir_named(folders, other),
        file_named(files, name) == file_named(files, other),
    decreases folders.len() + files.len(),
{
    if folders.len() > 0 {
        lemma_names_ignore_case(folders.skip(1), files, name, other);
    }
    if files.len() > 0 {
        lemma_names_ignore_case(folders, files.skip(1), name, other);
    }
}

proof fn lemma_descent_ignores_case(
    romfs: RomFs,
    dir: Folder,
    parts: Seq<Seq<char>>,
    others: Seq<Seq<char>>,
)
    requires
        parts.len() == others.len(),
        forall|i: int|
            0 <= i < parts.len() ==> text::lowered(#[trigger] parts[i]) == text::lowered(others[i]),
    ensures
        romfs.descended(dir, parts) == romfs.descended(dir, others),
    decreases parts.len(),
{
    if parts.len() > 0 {
        assert(text::lowered(parts[0]) == text::lowered(others[0]));
        lemma_names_ignore_case(romfs.folders(dir), Seq::empty(), parts[0], others[0]);
        if let Some(next) = dir_named(romfs.folders(dir), parts[0]) {
            assert forall|i: int| 0 <= i < parts.skip(1).len() implies text::lowered(
                #[trigger] parts.skip(1)[i],
            ) == text::lowered(others.skip(1)[i]) by {
                assert(text::lowered(parts[i + 1]) == text::lowered(others[i + 1]));
            }
            lemma_descent_ignores_case(romfs, next, parts.skip(1), others.skip(1));
        }
    }
}

/// the paths have the same parts between their slashes, the empty ones and the
/// case not counting.
pub open spec fn same_parts(path: Seq<char>, other: Seq<char>) -> bool {
    &&& text::parts_of(path).len() == text::parts_of(other).len()
    &&& forall|i: int|
        0 <= i < text::parts_of(path).len() ==> text::lowered(#[trigger] text::parts_of(path)[i])
            == text::lowered(text::parts_of(other)[i])
}

/// a path leads to a file by the parts between its slashes alone, whatever the
/// case of their letters.
pub proof fn law_lookup_goes_by_parts(romfs: RomFs, path: Seq<char>, other: Seq<char>)
    requires
        same_parts(path, other),
    ensures
        romfs.looked_up(path) is Ok <==> romfs.looked_up(other) is Ok,
        romfs.looked_up(path) matches Ok(file) ==> romfs.looked_up(other) == Ok::<
            Filed,
            Seq<char>,
        >(file),
{
    let parts = text::parts_of(path);
    let others = text::parts_of(other);
    if let Some(root) = dir_at(romfs.dirs@, 0) {
        if parts.len() > 0 {
            assert(text::lowered(parts.last()) == text::lowered(others.last()));
            assert forall|i: int| 0 <= i < parts.drop_last().len() implies text::lowered(
                #[trigger] parts.drop_last()[i],
            ) == text::lowered(others.drop_last()[i]) by {
                assert(text::lowered(parts[i]) == text::lowered(others[i]));
            }
            lemma_descent_ignores_case(
                romfs,
                romfs.top(root),
                parts.drop_last(),
                others.drop_last(),
            );
            if let Some(dir) = romfs.descended(romfs.top(root), parts.drop_last()) {
                lemma_names_ignore_case(
                    Seq::empty(),
                    romfs.filed(dir),
                    parts.last(),
                    others.last(),
                );
            }
        }
    }
}

/// a path leads to the same file whatever the case of its letters.
pub proof fn law_lookup_ignores_case(romfs: RomFs, path: Seq<char>, other: Seq<char>)
    requires
        text::lowered(path) == text::lowered(other),
    ensures
        romfs.looked_up(path) is Ok <==> romfs.looked_up(other) is Ok,
        romfs.looked_up(path) matches Ok(file) ==> romfs.looked_up(other) == Ok::<
            Filed,
            Seq<char>,
        >(file),
{
    text::lemma_parts_ignore_case(Seq::empty(), Seq::empty(), path, other);
    law_lookup_goes_by_parts(romfs, path, other);
}

/// a game's executable partition, without the dump it is in.
pub struct Title {
    pub program_id: u64,
    pub exheader: ExHeader,
    /// where .code is in the dump, and how big.
    pub code: (u64, u64),
    pub romfs: Option<RomFs>,
}

impl Title {
    pub fn program_id(&self) -> (id: u64)
        ensures
            id == self.program_id,
    {
        self.program_id
    }

    /// what the bytes of .code stand for.
    pub open spec fn code_of(self, raw: Seq<u8>) -> Result<Seq<u8>, Seq<char>> {
        if self.exheader.compress_code {
            decompressed(raw)
        } else {
            Ok(raw)
        }
    }

    /// the code, the three segments one after another, decompressed, out of
    /// the bytes of .code.
    pub fn code(&self, raw: Vec<u8>) -> (result: Result<Vec<u8>, Error>)
        requires
            self.exheader.compress_code ==> unpacked_size(raw@) <= usize::MAX,
        ensures
            match self.code_of(raw@) {
                Ok(code) => result matches Ok(out) && out@ == code,
                Err(message) => result matches Err(error) && error@ == message,
            },
    {
        if self.exheader.compress_code {
            decompress(raw.as_slice())
        } else {
            Ok(raw)
        }
    }

    /// where in the dump up to len bytes of a RomFS file from offset are, and
    /// how many there are. nothing without a RomFS, or past where a dump can
    /// reach.
    pub fn read_romfs(&self, file: &FileEntry, offset: u64, len: usize) -> (extent: Option<
        (u64, usize),
    >)
        ensures
            extent == (match self.romfs {
                None => None,
                Some(romfs) => {
                    let start = romfs.data + file.data_offset + offset;
                    let left = if file.data_size < offset {
                        0
                    } else {
                        file.data_size - offset
                    };
                    if start > u64::MAX {
                        None
                    } else {
                        Some(
                            (
                                start as u64,
                                (if len <= left {
                                    len as int
                                } else {
                                    left
                                }) as usize,
                            ),
                        )
                    }
                },
            }),
    {
        let romfs = match &self.romfs {
            Some(romfs) => romfs,
            None => return None,
        };
        let left = if file.data_size < offset {
            0
        } else {
            file.data_size - offset
        };
        let count = if len as u64 <= left {
            len
        } else {
            left as usize
        };
        let start = match romfs.data.checked_add(file.data_offset) {
            Some(start) => start,
            None => return None,
        };
        match start.checked_add(offset) {
            Some(start) => Some((start, count)),
            None => None,
        }
    }
}

/// how far the reading of a title has come, with what the dump said so far.
pub enum Loading {
    Start,
    /// the executable partition's header comes next.
    Header { ncch: u64 },
    /// its extended header comes next.
    Extended { partition: Partition },
    /// the header of its ExeFS comes next.
    Table { partition: Partition, exheader: ExHeader },
    /// the header of its RomFS comes next.
    Ivfc { title: Title, offset: u64 },
    /// the header of the RomFS tables comes next.
    Tables { title: Title, offset: u64 },
    /// the table of folders comes next.
    Dirs { title: Title, level3: Level3 },
    /// the table of files comes next.
    Files { title: Title, level3: Level3, dirs: Vec<u8> },
}

/// where reading a title goes from here.
pub enum Progress {
    More(Loading),
    Done(Title),
    Failed(Error),
}

impl Loading {
    /// every offset is one that the headers of a dump can give.
    pub open spec fn wf(self) -> bool {
        match self {
            Loading::Start => true,
            Loading::Header { ncch } => ncch <= 0x1FF_FFFF_FE00,
            Loading::Extended { partition } => partition.wf(),
            Loading::Table { partition, .. } => partition.wf(),
            Loading::Ivfc { offset, .. } => offset <= 0x3FF_FFFF_FC00,
            Loading::Tables { offset, .. } => offset <= 0x7FF_FFFF_FFFF,
            Loading::Dirs { .. } => true,
            Loading::Files { .. } => true,
        }
    }

    /// how many reads came before.
    pub open spec fn stage(self) -> nat {
        match self {
            Loading::Start => 0,
            Loading::Header { .. } => 1,
            Loading::Extended { .. } => 2,
            Loading::Table { .. } => 3,
            Loading::Ivfc { .. } => 4,
            Loading::Tables { .. } => 5,
            Loading::Dirs { .. } => 6,
            Loading::Files { .. } => 7,
        }
    }

    /// the offset in the dump of what has to be read next, and its size.
    pub open spec fn next(self) -> (u64, nat) {
        match self {
            Loading::Start => (0u64, 0x200),
            Loading::Header { ncch } => (ncch, 0x200),
            Loading::Extended { partition } => (
                (partition.ncch + NCCH_HEADER_SIZE) as u64,
                0x400,
            ),
            Loading::Table { partition, .. } => (partition.exefs, 0x200),
            Loading::Ivfc { offset, .. } => (offset, 0x60),
            Loading::Tables { offset, .. } => (offset, 0x28),
            Loading::Dirs { level3, .. } => (level3.dirs.0, level3.dirs.1 as nat),
            Loading::Files { level3, .. } => (level3.files.0, level3.files.1 as nat),
        }
    }

    /// what comes of the bytes that were read.
    pub open spec fn takes(self, bytes: Seq<u8>, progress: Progress) -> bool {
        match self {
            Loading::Start => match partition_offset(bytes) {
                Ok(offset) => progress == Progress::More(Loading::Header { ncch: offset }),
                Err(message) => progress matches Progress::Failed(error) && error@ == message,
            },
            Loading::Header { ncch } => match partition_at(ncch, bytes) {
                Ok(partition) => progress == Progress::More(Loading::Extended { partition }),
                Err(message) => progress matches Progress::Failed(error) && error@ == message,
            },
            Loading::Extended { partition } => {
                &&& progress matches Progress::More(
                    Loading::Table { partition: same, exheader },
                )
                &&& same == partition
                &&& exheader.describes(bytes)
            },
            Loading::Table { partition, exheader } => match code_extent(partition.exefs, bytes) {
                Some(code) => {
                    let title = Title {
                        program_id: partition.program_id,
                        exheader,
                        code,
                        romfs: None,
                    };
                    match partition.romfs {
                        Some(offset) => progress == Progress::More(
                            Loading::Ivfc { title, offset },
                        ),
                        None => progress == Progress::Done(title),
                    }
                },
                None => progress matches Progress::Failed(error) && error@
                    == "the ExeFS has no .code"@,
            },
            // a RomFS that cannot be read is as good as none
            Loading::Ivfc { title, offset } => match level3_offset(offset, bytes) {
                Ok(offset) => progress == Progress::More(Loading::Tables { title, offset }),
                Err(_) => progress == Progress::Done(title),
            },
            Loading::Tables { title, offset } => match level3_at(offset, bytes) {
                Ok(level3) => progress == Progress::More(Loading::Dirs { title, level3 }),
                Err(_) => progress == Progress::Done(title),
            },
            Loading::Dirs { title, level3 } => {
                &&& progress matches Progress::More(
                    Loading::Files { title: same, level3: still, dirs },
                )
                &&& same == title
                &&& still == level3
                &&& dirs@ == bytes
            },
            Loading::Files { title, level3, dirs } => {
                &&& progress matches Progress::Done(whole)
                &&& whole.romfs matches Some(romfs)
                &&& whole == (Title { romfs: whole.romfs, ..title })
                &&& romfs.data == level3.data
                &&& romfs.dirs == dirs
                &&& romfs.files@ == bytes
            },
        }
    }

    /// what comes of a read that failed. a RomFS that cannot be read is as
    /// good as none, without anything else there is no title.
    pub open spec fn fails(self, error: Error, progress: Progress) -> bool {
        match self {
            Loading::Ivfc { title, .. } => progress == Progress::Done(title),
            Loading::Tables { title, .. } => progress == Progress::Done(title),
            Loading::Dirs { title, .. } => progress == Progress::Done(title),
            Loading::Files { title, .. } => progress == Progress::Done(title),
            _ => progress == Progress::Failed(error),
        }
    }

    /// the offset in the dump of what has to be read next, and its size.
    pub fn wants(&self) -> (extent: (u64, u32))
        requires
            self.wf(),
        ensures
            extent.0 == self.next().0,
            extent.1 == self.next().1,
    {
        match self {
            Loading::Start => (0, 0x200),
            Loading::Header { ncch } => (*ncch, 0x200),
            Loading::Extended { partition } => (partition.ncch + NCCH_HEADER_SIZE, 0x400),
            Loading::Table { partition, .. } => (partition.exefs, 0x200),
            Loading::Ivfc { offset, .. } => (*offset, 0x60),
            Loading::Tables { offset, .. } => (*offset, 0x28),
            Loading::Dirs { level3, .. } => level3.dirs,
            Loading::Files { level3, .. } => level3.files,
        }
    }

    /// goes on with what was read, which has to be what was wanted.
    pub fn feed(self, read: Result<Vec<u8>, Error>) -> (progress: Progress)
        requires
            self.wf(),
            read matches Ok(bytes) ==> bytes@.len() == self.next().1,
        ensures
            match read {
                Ok(bytes) => self.takes(bytes@, progress),
                Err(error) => self.fails(error, progress),
            },
            progress matches Progress::More(next) ==> next.wf() && next.stage() == self.stage() + 1,
    {
        let bytes = match read {
            Ok(bytes) => bytes,
            Err(error) => return match self {
                Loading::Ivfc { title, .. } => Progress::Done(title),
                Loading::Tables { title, .. } => Progress::Done(title),
                Loading::Dirs { title, .. } => Progress::Done(title),
                Loading::Files { title, .. } => Progress::Done(title),
                _ => Progress::Failed(error),
            },
        };
        match self {
            Loading::Start => match find_partition(bytes.as_slice()) {
                Ok(ncch) => Progress::More(Loading::Header { ncch }),
                Err(error) => Progress::Failed(error),
            },
            Loading::Header { ncch } => match read_partition(ncch, bytes.as_slice()) {
                Ok(partition) => Progress::More(Loading::Extended { partition }),
                Err(error) => Progress::Failed(error),
            },
            Loading::Extended { partition } => {
                let exheader = ExHeader::read(bytes.as_slice());
                Progress::More(Loading::Table { partition, exheader })
            },
            Loading::Table { partition, exheader } => {
                let code = match find_code(partition.exefs, bytes.as_slice()) {
                    Some(code) => code,
                    None => return Progress::Failed(
                        Error("the ExeFS has no .code".to_owned()),
                    ),
                };
                let title = Title {
                    program_id: partition.program_id,
                    exheader,
                    code,
                    romfs: None,
                };
                match partition.romfs {
                    Some(offset) => Progress::More(Loading::Ivfc { title, offset }),
                    None => Progress::Done(title),
                }
            },
            Loading::Ivfc { title, offset } => match find_level3(offset, bytes.as_slice()) {
                Ok(offset) => Progress::More(Loading::Tables { title, offset }),
                Err(_) => Progress::Done(title),
            },
            Loading::Tables { title, offset } => match read_level3(offset, bytes.as_slice()) {
                Ok(level3) => Progress::More(Loading::Dirs { title, level3 }),
                Err(_) => Progress::Done(title),
            },
            Loading::Dirs { title, level3 } => Progress::More(
                Loading::Files { title, level3, dirs: bytes },
            ),
            Loading::Files { title, level3, dirs } => {
                let romfs = RomFs { data: level3.data, dirs, files: bytes };
                Progress::Done(
                    Title {
                        program_id: title.program_id,
                        exheader: title.exheader,
                        code: title.code,
                        romfs: Some(romfs),
                    },
                )
            },
        }
    }
}

} // verus!
