use recomp3ds::cro::{parse, Module, Relocation};
use recomp3ds::discover;
use recomp3ds::discover::Source;
use recomp3ds::image::{Image, Segment};
use recomp3ds::rom::{CodeSetInfo, ExHeader, RomFs, Title};
use recomp3ds::{imported, module_entries, module_files, programs, static_file, static_module};
use std::collections::BTreeSet;

/// a module with a header, a code segment at 0x200 and a data segment
/// at 0x300, holding the code words and one relocation per pointer, each
/// as (segment tag of the slot, offset in code).
fn module(code: &[u32], pointers: &[(u32, u32)]) -> Vec<u8> {
    let mut bytes = vec![0; 0x400];
    let mut put = |at: usize, value: u32| bytes[at..at + 4].copy_from_slice(&value.to_le_bytes());
    put(0x80, u32::from_le_bytes(*b"CRO0"));
    put(0xC8, 0x138);
    put(0xCC, 2);
    put(0x138, 0x200);
    put(0x13C, code.len() as u32 * 4);
    put(0x140, 0);
    put(0x144, 0x300);
    put(0x148, 0x100);
    put(0x14C, 2);
    put(0x128, 0x150);
    put(0x12C, pointers.len() as u32);
    for (i, &(slot, offset)) in pointers.iter().enumerate() {
        let entry = 0x150 + i * 12;
        put(entry, slot);
        put(entry + 4, 2);
        put(entry + 8, offset);
    }
    for (i, &word) in code.iter().enumerate() {
        put(0x200 + i * 4, word);
    }
    bytes
}

#[test]
fn relocations_fill_in_code_pointers() {
    let bytes = module(
        &[
            0xE59F_0000, // ldr r0, [pc] (literal at 0x208)
            0xE12F_FF1E, // bx lr
            0,           // the literal, relocated to 0x210
            0xE12F_FF1E, // bx lr, only reached through the data
            0xE12F_FF1E, // bx lr, only reached through the literal
        ],
        // the literal (segment 0, offset 8) and a data word (segment 1)
        &[(8 << 4, 0x10), (1, 0xC)],
    );
    let program = parse(&bytes).unwrap().program(&bytes, &[]).unwrap();
    assert_eq!(program.text.read32(0x208), Some(0x210));
    assert_eq!(program.slots, Some(BTreeSet::from([0x208])));
    let analysis = discover::analyze(&program);
    assert!(analysis.functions.contains_key(&0x20C));
    assert!(analysis.functions.contains_key(&0x210));
}

fn put(bytes: &mut [u8], at: usize, value: u32) {
    bytes[at..at + 4].copy_from_slice(&value.to_le_bytes());
}

/// a module called Field with three words of code, exports by name and by
/// index, an import and something taken from Battle without a name.
fn field() -> Vec<u8> {
    let mut bytes = module(&[0xE12F_FF1E, 0xE12F_FF1E, 0xE12F_FF1E], &[]);
    put(&mut bytes, 0xC0, 0x310);
    bytes[0x310..0x315].copy_from_slice(b"Field");
    // update, at code offset 4
    put(&mut bytes, 0xD0, 0x320);
    put(&mut bytes, 0xD4, 1);
    put(&mut bytes, 0x320, 0x328);
    put(&mut bytes, 0x324, 4 << 4);
    bytes[0x328..0x32E].copy_from_slice(b"update");
    // by index, at code offset 8 and in data
    put(&mut bytes, 0xD8, 0x330);
    put(&mut bytes, 0xDC, 2);
    put(&mut bytes, 0x330, 8 << 4);
    put(&mut bytes, 0x334, 1);
    // an import that goes to data offset 0x80
    put(&mut bytes, 0xF8, 0x340);
    put(&mut bytes, 0xFC, 1);
    put(&mut bytes, 0x340, (0x80 << 4) | 1);
    bytes[0x344] = 2;
    put(&mut bytes, 0x348, 4);
    // taken from Battle
    put(&mut bytes, 0xF0, 0x350);
    put(&mut bytes, 0xF4, 1);
    put(&mut bytes, 0x350, 0x370);
    put(&mut bytes, 0x35C, 0x378);
    put(&mut bytes, 0x360, 2);
    bytes[0x370..0x376].copy_from_slice(b"Battle");
    put(&mut bytes, 0x378, 4 << 4);
    put(&mut bytes, 0x380, 1);
    bytes
}

#[test]
fn a_module_is_read_from_its_file() {
    let parsed = parse(&field()).unwrap();
    assert_eq!(parsed.name, "Field");
    assert_eq!(parsed.segments.len(), 2);
    assert_eq!((parsed.segments[1].offset, parsed.segments[1].size, parsed.segments[1].kind), (0x300, 0x100, 2));
    assert_eq!(parsed.exports, [("update".to_owned(), 4 << 4)]);
    assert_eq!(parsed.indexed_exports, [8 << 4, 1]);
    assert_eq!(parsed.imports, [Relocation { target: (0x80 << 4) | 1, kind: 2, segment: 0, addend: 4 }]);
    assert_eq!(parsed.anonymous_imports, [("Battle".to_owned(), 4 << 4), ("Battle".to_owned(), 1)]);
    assert_eq!(parsed.code_exports(), [0x204, 0x208]);
    assert_eq!(parsed.resolve(1), Some(0x300));
    assert_eq!(parsed.code_address(1), None);
    assert_eq!(parsed.resolve(12 << 4), None);
    assert_eq!(parsed.resolve(2), None);
}

#[test]
fn names_that_are_not_utf8_are_read_anyway() {
    let mut bytes = field();
    bytes[0x311] = 0xFF;
    assert_eq!(parse(&bytes).unwrap().name, "F\u{FFFD}eld");
}

#[test]
fn files_that_are_no_module_are_refused() {
    let broken = |change: fn(&mut Vec<u8>)| {
        let mut bytes = field();
        change(&mut bytes);
        parse(&bytes).is_none()
    };
    assert!(!broken(|_| ()));
    assert!(broken(|b| b[0x80] = b'X'));
    assert!(broken(|b| b.truncate(0x40)));
    // a table that is not all there
    assert!(broken(|b| put(b, 0xCC, 0x100)));
    assert!(broken(|b| put(b, 0x12C, 0xFFFF_FFFF)));
    // what is taken without a name is not needed
    assert!(!broken(|b| put(b, 0xF4, 0xFFFF)));
}

#[test]
fn a_loaded_module_has_its_addresses_filled_in() {
    let mut bytes = field();
    // a third segment of zeros, and a relocation of code offset 8 to data
    put(&mut bytes, 0xCC, 3);
    put(&mut bytes, 0x150, 0xFFFF);
    put(&mut bytes, 0x154, 0x20);
    put(&mut bytes, 0x158, 3);
    put(&mut bytes, 0x128, 0x160);
    put(&mut bytes, 0x12C, 1);
    put(&mut bytes, 0x160, (0x90 << 4) | 1);
    put(&mut bytes, 0x164, 2);
    put(&mut bytes, 0x168, 8);
    let parsed = parse(&bytes).unwrap();
    assert_eq!(parsed.image_size(bytes.len()), Some(0x1020));
    let image = parsed.image(&bytes, 0x0A00_0000, 0x0B00_0000);
    assert_eq!(image.len(), 0x1020);
    assert_eq!(image[0x390..0x394], 0x0A00_0208u32.to_le_bytes());
    assert_eq!(image[0x380..0x384], 0x0B00_0004u32.to_le_bytes());
    assert_eq!(image[..0x200], bytes[..0x200]);
    // one that cannot be loaded
    put(&mut bytes, 0x154, 0xFFFF_F800);
    assert_eq!(parse(&bytes).unwrap().image_size(bytes.len()), None);
}

#[test]
fn relocations_that_are_no_addresses_are_only_seeds() {
    let mut bytes = module(&[0xE12F_FF1E, 0, 0xE12F_FF1E], &[(4 << 4, 8)]);
    bytes[0x154] = 3;
    let program = parse(&bytes).unwrap().program(&bytes, &[0x204]).unwrap();
    assert_eq!(program.text.read32(0x204), Some(0));
    assert_eq!(program.slots, Some(BTreeSet::new()));
    assert_eq!(program.seeds, [(0x204, Source::Import), (0x208, Source::Relocation)]);
}

#[test]
fn a_module_without_code_is_no_program() {
    let bytes = module(&[], &[]);
    assert!(parse(&bytes).unwrap().program(&bytes, &[]).is_none());
    // code that is not all there
    let mut bytes = module(&[0xE12F_FF1E], &[]);
    put(&mut bytes, 0x13C, 0x1000);
    assert!(parse(&bytes).unwrap().program(&bytes, &[]).is_none());
}

fn battle() -> Vec<u8> {
    let mut bytes = field();
    bytes[0x310..0x317].copy_from_slice(b"Battle\0");
    bytes[0x370..0x376].copy_from_slice(b"Field\0");
    bytes
}

#[test]
fn modules_take_from_each_other() {
    let files = module_files(vec![field(), vec![1, 2, 3], battle()]);
    assert_eq!(files.len(), 2);
    assert_eq!(imported(&files, None, &files[1].0), [0x204]);
    let crs = static_module(&battle()).unwrap();
    assert_eq!(imported(&files, Some(&crs), &files[0].0), [0x204, 0x204]);
    let other = Module { name: "Other".to_owned(), ..static_module(&field()).unwrap() };
    assert!(imported(&files, None, &other).is_empty());
    assert!(static_module(&[0; 16]).is_none());
}

#[test]
fn the_executable_comes_before_its_modules() {
    let image = || Image {
        entry: 0x0010_0000,
        text: Segment { base: 0x0010_0000, bytes: vec![0x1E, 0xFF, 0x2F, 0xE1] },
        rodata: Segment { base: 0x0020_0000, bytes: Vec::new() },
        data: Segment { base: 0x0030_0000, bytes: vec![0, 0, 0x10, 0] },
    };
    let empty = module(&[], &[]);
    let files = module_files(vec![field(), empty, battle()]);
    let crs = static_module(&field()).unwrap();
    let list = programs(image(), &files, Some(&crs));
    let names: Vec<&str> = list.iter().map(|(name, _)| name.as_str()).collect();
    assert_eq!(names, ["executable", "Field", "Battle"]);
    assert_eq!(
        list[0].1.seeds,
        [
            (0x0010_0000, Source::Entry),
            (0x204, Source::Export),
            (0x208, Source::Export),
            (0x204, Source::Import),
            (0x0010_0000, Source::Pointer),
        ]
    );
    assert!(list[2].1.seeds.contains(&(0x204, Source::Import)));
    assert_eq!(programs(image(), &[], None).len(), 1);
}

fn title(romfs: Option<RomFs>) -> Title {
    let info = CodeSetInfo { address: 0, num_pages: 0, size: 0 };
    let exheader =
        ExHeader { title: String::new(), compress_code: false, text: info, rodata: info, data: info, bss_size: 0 };
    Title { program_id: 0, exheader, code: (0, 0), romfs }
}

fn entry(words: &[u32], name: &str) -> Vec<u8> {
    let name: Vec<u8> = name.encode_utf16().flat_map(|unit| unit.to_le_bytes()).collect();
    let mut bytes: Vec<u8> = words.iter().flat_map(|w| w.to_le_bytes()).collect();
    bytes.extend_from_slice(&(name.len() as u32).to_le_bytes());
    bytes.extend_from_slice(&name);
    bytes
}

const NONE: u32 = 0xFFFF_FFFF;

#[test]
fn modules_are_found_all_over_the_romfs() {
    assert!(module_entries(&title(None)).is_empty());
    assert!(static_file(&title(None)).is_none());
    // a root with a nameless folder and static.crs, and modules in both
    let dirs = [entry(&[0, NONE, 0x18, 0, 0], ""), entry(&[0, NONE, NONE, 0x68, 0], "")].concat();
    let files = [
        entry(&[0, 0x34, 0, 0, 1, 0, 0], "static.crs"),
        entry(&[0, NONE, 0, 0, 2, 0, 0], "field1.CRO"),
        entry(&[0, NONE, 0, 0, 3, 0, 0], "z.cro"),
    ]
    .concat();
    let title = title(Some(RomFs { data: 0, dirs, files }));
    let names: Vec<String> = module_entries(&title).into_iter().map(|file| file.name).collect();
    assert_eq!(names, ["field1.CRO", "z.cro"]);
    // looked for inside the nameless folder
    assert!(static_file(&title).is_none());
}
