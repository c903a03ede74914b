use recomp3ds::rom::{decompress, Error, Loading, Progress, RomFs, Title};

/// a literal and a run, the smallest stream that exercises both.
#[test]
fn backwards_lzss_decompresses() {
    // the output ends in "abcabc", three literals, then a run of three
    // copying them from three bytes further on
    let mut stream = vec![0xFF, 0xFF];
    // the run, a length and an offset of zero, the shortest there is
    stream.extend_from_slice(&0x0000u16.to_le_bytes());
    stream.extend_from_slice(b"abc");
    // control, three literals then a run, read from the high bit
    stream.push(0b0001_0000);
    // footer, 8 bytes of footer, the compressed part spans all but the
    // two filler bytes, and three more bytes come out
    let span = (stream.len() + 8 - 2) as u32;
    stream.extend_from_slice(&((8u32 << 24) | span).to_le_bytes());
    stream.extend_from_slice(&3u32.to_le_bytes());
    let out = decompress(&stream).unwrap();
    assert_eq!(&out[out.len() - 6..], b"abcabc");
}

/// body with a footer that has everything from stop on compressed.
fn packed(body: &[u8], stop: usize, extra: u32) -> Vec<u8> {
    let mut stream = body.to_vec();
    let span = (stream.len() + 8 - stop) as u32;
    stream.extend_from_slice(&((8u32 << 24) | span).to_le_bytes());
    stream.extend_from_slice(&extra.to_le_bytes());
    stream
}

fn problem(stream: &[u8]) -> String {
    decompress(stream).err().unwrap().message().to_owned()
}

#[test]
fn broken_compression_is_refused() {
    assert_eq!(problem(&[0; 7]), "compressed code shorter than its footer");
    let footer = [0xFF, 0xFF, 0xFF, 0x08, 0, 0, 0, 0];
    assert_eq!(problem(&footer), "the compressed code's footer points outside it");
    // a run with one byte left for it
    assert_eq!(problem(&packed(&[0, 0b1000_0000], 0, 0)), "a back reference is cut short");
    // a run right at the end has nothing after it to copy
    assert_eq!(problem(&packed(&[0, 0, 0b1000_0000], 0, 0)), "a run reads past the end");
    // longer than everything before it
    assert_eq!(problem(&packed(&[0, 0xF0, 0b1000_0000], 0, 0)), "a run goes past the start");
}

#[test]
fn code_with_nothing_compressed_stays() {
    let mut stream = vec![1, 2, 3, 4];
    stream.extend_from_slice(&(8u32 << 24).to_le_bytes());
    stream.extend_from_slice(&2u32.to_le_bytes());
    let out = decompress(&stream).unwrap();
    assert_eq!(&out[..4], [1, 2, 3, 4]);
    assert_eq!(&out[12..], [0, 0]);
}

fn utf16(name: &str) -> Vec<u8> {
    name.encode_utf16().flat_map(|unit| unit.to_le_bytes()).collect()
}

fn dir_entry(sibling: u32, child: u32, file: u32, name: &str) -> Vec<u8> {
    let name = utf16(name);
    let mut entry = Vec::new();
    for word in [0, sibling, child, file, 0, name.len() as u32] {
        entry.extend_from_slice(&word.to_le_bytes());
    }
    entry.extend_from_slice(&name);
    entry
}

fn file_entry(sibling: u32, offset: u64, size: u64, name: &str) -> Vec<u8> {
    let name = utf16(name);
    let mut entry = Vec::new();
    entry.extend_from_slice(&0u32.to_le_bytes());
    entry.extend_from_slice(&sibling.to_le_bytes());
    entry.extend_from_slice(&offset.to_le_bytes());
    entry.extend_from_slice(&size.to_le_bytes());
    entry.extend_from_slice(&0u32.to_le_bytes());
    entry.extend_from_slice(&(name.len() as u32).to_le_bytes());
    entry.extend_from_slice(&name);
    entry
}

const NONE: u32 = 0xFFFF_FFFF;

/// a root with a nameless folder, that with one file and a folder "Dll" with
/// two more.
fn tree() -> RomFs {
    let root = dir_entry(NONE, 0x18, NONE, "");
    let nameless = dir_entry(NONE, 0x30, 0, "");
    let dll = dir_entry(NONE, NONE, 0x34, "Dll");
    let first = file_entry(NONE, 0x10, 0x100, "static.crs");
    let mut second = file_entry(0, 0x110, 0x20, "Field.CRO");
    let third = file_entry(NONE, 0x130, 0x30, "note.txt");
    assert_eq!((root.len(), nameless.len(), first.len()), (0x18, 0x18, 0x34));
    let third_at = (first.len() + second.len()) as u32;
    second[4..8].copy_from_slice(&third_at.to_le_bytes());
    RomFs {
        data: 0x1000,
        dirs: [root, nameless, dll].concat(),
        files: [first, second, third].concat(),
    }
}

#[test]
fn files_are_looked_up_by_path() {
    let romfs = tree();
    assert_eq!(romfs.lookup("static.crs").unwrap().data_size, 0x100);
    assert_eq!(romfs.lookup("/dll//field.cro").unwrap().data_offset, 0x110);
    assert_eq!(romfs.lookup("DLL/NOTE.TXT").unwrap().name, "note.txt");
    let missing = |path: &str| romfs.lookup(path).err().unwrap().message().to_owned();
    assert_eq!(missing("dll/none"), "dll/none is not in the RomFS");
    assert_eq!(missing("none/note.txt"), "none/note.txt is not in the RomFS");
    assert_eq!(missing("/"), "/ is not in the RomFS");
}

#[test]
fn folders_list_what_is_in_them() {
    let romfs = tree();
    let root = romfs.root().unwrap();
    let nameless = romfs.subdirs(&root);
    assert_eq!(nameless.len(), 1);
    assert_eq!(nameless[0].0, 0x18);
    let folders = romfs.subdirs(&nameless[0].1);
    assert_eq!(folders[0].1.name, "Dll");
    let files: Vec<String> = romfs.files(&folders[0].1).into_iter().map(|(_, f)| f.name).collect();
    assert_eq!(files, ["Field.CRO", "note.txt"]);
    assert!(romfs.files(&root).is_empty());
}

#[test]
fn a_romfs_without_a_root_finds_nothing() {
    let romfs = RomFs { data: 0, dirs: vec![0; 4], files: Vec::new() };
    assert_eq!(romfs.root().err().unwrap().message(), "the RomFS has no root");
    assert_eq!(romfs.lookup("a").err().unwrap().message(), "the RomFS has no root");
}

#[test]
fn folders_that_lead_back_to_themselves_end() {
    let mut dirs = dir_entry(0, 0, NONE, "");
    dirs.push(0);
    let romfs = RomFs { data: 0, dirs, files: Vec::new() };
    let root = romfs.root().unwrap();
    assert_eq!(romfs.subdirs(&root).len(), romfs.dirs.len());
}

#[test]
fn names_are_utf16() {
    let name = "\u{30DD}\u{1F600}";
    let mut dirs = dir_entry(NONE, NONE, NONE, name);
    let romfs = RomFs { data: 0, dirs: dirs.clone(), files: Vec::new() };
    assert_eq!(romfs.root().unwrap().name, name);
    // a surrogate without its other half
    let end = dirs.len();
    dirs[0x14] = 4;
    dirs.truncate(end - 2);
    let romfs = RomFs { data: 0, dirs, files: Vec::new() };
    assert_eq!(romfs.root().unwrap().name, "\u{30DD}\u{FFFD}");
}

fn put(bytes: &mut [u8], at: usize, value: u32) {
    bytes[at..at + 4].copy_from_slice(&value.to_le_bytes());
}

/// a .cxi with a header, an extended header, an ExeFS and a RomFS.
fn dump() -> Vec<u8> {
    let mut bytes = vec![0u8; 0x3000];
    bytes[0x100..0x104].copy_from_slice(b"NCCH");
    put(&mut bytes, 0x118, 0x0011_C500);
    put(&mut bytes, 0x11C, 0x0004_0000);
    bytes[0x18F] = 0x04;
    put(&mut bytes, 0x1A0, 8); // the ExeFS at 0x1000
    put(&mut bytes, 0x1B0, 16); // the RomFS at 0x2000
    put(&mut bytes, 0x1B4, 1);
    bytes[0x200..0x206].copy_from_slice(b"SANGO1");
    bytes[0x20D] = 1;
    put(&mut bytes, 0x210, 0x0010_0000);
    put(&mut bytes, 0x214, 3);
    put(&mut bytes, 0x218, 0x2345);
    put(&mut bytes, 0x23C, 0x9000);
    bytes[0x1000..0x1007].copy_from_slice(b".codeXX");
    bytes[0x1010..0x1015].copy_from_slice(b".code");
    put(&mut bytes, 0x1018, 0x40);
    put(&mut bytes, 0x101C, 0x80);
    bytes[0x2000..0x2004].copy_from_slice(b"IVFC");
    put(&mut bytes, 0x2008, 0x20);
    put(&mut bytes, 0x204C, 12);
    let romfs = tree();
    // level 3 starts on the next block of 0x1000 past 0x80, which is past the
    // end here, so it uses blocks of 0x100
    put(&mut bytes, 0x204C, 8);
    let level3 = 0x2100;
    put(&mut bytes, level3, 0x28);
    put(&mut bytes, level3 + 0x0C, 0x28);
    put(&mut bytes, level3 + 0x10, romfs.dirs.len() as u32);
    put(&mut bytes, level3 + 0x1C, 0x100);
    put(&mut bytes, level3 + 0x20, romfs.files.len() as u32);
    put(&mut bytes, level3 + 0x24, 0x200);
    bytes[level3 + 0x28..level3 + 0x28 + romfs.dirs.len()].copy_from_slice(&romfs.dirs);
    bytes[level3 + 0x100..level3 + 0x100 + romfs.files.len()].copy_from_slice(&romfs.files);
    bytes
}

fn read(dump: &[u8], extent: (u64, u32)) -> Result<Vec<u8>, Error> {
    let start = extent.0 as usize;
    match dump.get(start..start + extent.1 as usize) {
        Some(bytes) => Ok(bytes.to_vec()),
        None => Err(Error("failed to fill whole buffer".to_owned())),
    }
}

fn load(dump: &[u8]) -> Result<Title, String> {
    let mut state = Loading::Start;
    loop {
        let bytes = read(dump, state.wants());
        match state.feed(bytes) {
            Progress::More(next) => state = next,
            Progress::Done(title) => return Ok(title),
            Progress::Failed(error) => return Err(error.message().to_owned()),
        }
    }
}

#[test]
fn a_title_is_read_step_by_step() {
    let title = load(&dump()).unwrap();
    assert_eq!(title.program_id(), 0x0004_0000_0011_C500);
    assert_eq!(title.exheader.title, "SANGO1");
    assert!(title.exheader.compress_code);
    assert_eq!(title.exheader.text.address, 0x0010_0000);
    assert_eq!(title.exheader.text.num_pages, 3);
    assert_eq!(title.exheader.text.size, 0x2345);
    assert_eq!(title.exheader.bss_size, 0x9000);
    assert_eq!(title.code, (0x1000 + 0x200 + 0x40, 0x80));
    let romfs = title.romfs.as_ref().unwrap();
    assert_eq!(romfs.data, 0x2300);
    let file = romfs.lookup("static.crs").unwrap();
    assert_eq!(title.read_romfs(&file, 0, 0x100), Some((0x2310, 0x100)));
    assert_eq!(title.read_romfs(&file, 0xF0, 0x100), Some((0x2400, 0x10)));
    assert_eq!(title.read_romfs(&file, 0x200, 1), Some((0x2510, 0)));
    assert_eq!(title.read_romfs(&file, u64::MAX, 1), None);
}

#[test]
fn a_cartridge_holds_its_executable_first() {
    let mut card = vec![0u8; 0x400];
    card[0x100..0x104].copy_from_slice(b"NCSD");
    put(&mut card, 0x120, 2);
    card.extend_from_slice(&dump());
    let title = load(&card).unwrap();
    assert_eq!(title.code.0, 0x400 + 0x1240);
    assert_eq!(title.romfs.unwrap().data, 0x400 + 0x2300);
}

#[test]
fn dumps_that_cannot_be_read_are_refused() {
    let broken = |change: fn(&mut Vec<u8>)| {
        let mut bytes = dump();
        change(&mut bytes);
        load(&bytes).err().unwrap()
    };
    assert_eq!(broken(|d| d[0x100] = 0), "not a 3DS cartridge image or executable");
    assert_eq!(
        broken(|d| {
            d[0x18F] = 0;
            d[0x18B] = 1;
        }),
        "the dump is encrypted, it has to be decrypted first"
    );
    assert_eq!(broken(|d| d[0x1011] = b'X'), "the ExeFS has no .code");
    assert_eq!(broken(|d| d.truncate(0x300)), "failed to fill whole buffer");
    let mut card = vec![0u8; 0x400];
    card[0x100..0x104].copy_from_slice(b"NCSD");
    put(&mut card, 0x120, 1);
    assert_eq!(load(&card).err().unwrap(), "the executable partition has no NCCH header");
}

#[test]
fn a_broken_romfs_is_as_good_as_none() {
    let without = |change: fn(&mut Vec<u8>)| {
        let mut bytes = dump();
        change(&mut bytes);
        load(&bytes).unwrap().romfs.is_none()
    };
    assert!(without(|d| d[0x2000] = 0));
    assert!(without(|d| d[0x2100] = 0));
    assert!(without(|d| d[0x18F] = 0x06));
    assert!(without(|d| d.truncate(0x2120)));
    assert!(without(|d| d.truncate(0x2050)));
    assert!(!without(|_| ()));
}

#[test]
fn code_is_decompressed_when_the_title_says_so() {
    let mut title = load(&dump()).unwrap();
    let stream = packed(&[b'a', 0], 0, 1);
    let out = title.code(stream.clone()).unwrap();
    assert_eq!(out.len(), stream.len() + 1);
    assert_eq!(out.last(), Some(&b'a'));
    title.exheader.compress_code = false;
    assert_eq!(title.code(stream.clone()).unwrap(), stream);
}

#[test]
fn paths_with_the_same_parts_find_the_same_file() {
    let romfs = tree();
    let found = romfs.lookup("Dll/Field.CRO").unwrap();
    for path in ["dll/field.cro", "/DLL/FIELD.CRO", "//dLL///Field.cro/", "Dll//Field.CRO//"] {
        let file = romfs.lookup(path).unwrap();
        assert_eq!((file.name, file.data_offset, file.data_size), (found.name.clone(), 0x110, 0x20));
    }
    assert!(romfs.lookup("dll/fieldcro").is_err());
}
