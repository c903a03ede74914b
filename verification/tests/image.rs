use recomp3ds::discover;
use recomp3ds::discover::{Mode, Source};
use recomp3ds::image::{Image, Segment};
use recomp3ds::rom::{CodeSetInfo, ExHeader, Title};

const BASE: u32 = 0x0010_0000;

fn segment(base: u32, words: &[u32]) -> Segment {
    Segment { base, bytes: words.iter().flat_map(|w| w.to_le_bytes()).collect() }
}

#[test]
fn image_pointers_in_data_become_functions() {
    let image = Image {
        entry: BASE,
        text: segment(BASE, &[0xE12F_FF1E, 0x4770_4770, 0xE12F_FF1E]),
        rodata: segment(0x0020_0000, &[BASE + 8, 12345]),
        data: segment(0x0030_0000, &[BASE + 5]),
    };
    let program = image.into_program(&[], &[]);
    assert_eq!(program.seeds.len(), 3);
    let analysis = discover::analyze(&program);
    assert_eq!(analysis.functions[&(BASE + 8)].source, Source::Pointer);
    assert_eq!(analysis.functions[&(BASE + 4)].mode, Mode::Thumb);
}

#[test]
fn a_segment_reads_and_writes_inside_itself() {
    let mut segment = segment(BASE, &[0x1122_3344, 0x5566_7788]);
    assert_eq!(segment.end(), BASE + 8);
    assert!(segment.contains(BASE) && segment.contains(BASE + 7));
    assert!(!segment.contains(BASE - 1) && !segment.contains(BASE + 8));
    assert_eq!(segment.read32(BASE + 2), Some(0x7788_1122));
    assert_eq!(segment.read32(BASE + 5), None);
    assert_eq!(segment.read16(BASE + 6), Some(0x5566));
    assert_eq!(segment.read16(BASE + 7), None);
    assert_eq!(segment.read32(BASE - 4), None);
    assert_eq!(segment.words(), [(BASE, 0x1122_3344), (BASE + 4, 0x5566_7788)]);
    segment.write32(BASE + 4, 0xCAFE_F00D);
    assert_eq!(segment.read32(BASE + 4), Some(0xCAFE_F00D));
    assert_eq!(segment.read32(BASE), Some(0x1122_3344));
}

#[test]
fn seeds_come_in_order() {
    let image = Image {
        entry: BASE,
        text: segment(BASE, &[0; 4]),
        rodata: segment(0x0020_0000, &[BASE + 4]),
        data: segment(0x0030_0000, &[BASE + 12, BASE + 16]),
    };
    let program = image.into_program(&[BASE + 1], &[7]);
    assert_eq!(
        program.seeds,
        [
            (BASE, Source::Entry),
            (BASE + 1, Source::Export),
            (7, Source::Import),
            (BASE + 4, Source::Pointer),
            (BASE + 12, Source::Pointer),
        ]
    );
    assert!(program.slots.is_none());
}

fn title(compress_code: bool) -> Title {
    Title {
        program_id: 0x0004_0000_0011_C500,
        exheader: ExHeader {
            title: "game".to_owned(),
            compress_code,
            text: CodeSetInfo { address: 0x0010_0000, num_pages: 1, size: 4 },
            rodata: CodeSetInfo { address: 0x0010_1000, num_pages: 2, size: 8 },
            data: CodeSetInfo { address: 0x0010_3000, num_pages: 1, size: 16 },
            bss_size: 0,
        },
        code: (0, 0),
        romfs: None,
    }
}

#[test]
fn segments_sit_on_pages_of_their_own() {
    let mut code = vec![0u8; 0x3010];
    code[0] = 1;
    code[0x1000] = 2;
    code[0x300F] = 3;
    let image = Image::from_title(&title(false), code).unwrap();
    assert_eq!(image.entry, 0x0010_0000);
    assert_eq!(image.text.bytes, [1, 0, 0, 0]);
    assert_eq!(image.rodata.base, 0x0010_1000);
    assert_eq!(image.rodata.bytes, [2, 0, 0, 0, 0, 0, 0, 0]);
    assert_eq!(image.data.bytes[15], 3);
    // a segment that is not all there is empty
    let image = Image::from_title(&title(false), vec![0; 0x1004]).unwrap();
    assert_eq!(image.text.bytes.len(), 4);
    assert!(image.rodata.bytes.is_empty() && image.data.bytes.is_empty());
}

#[test]
fn compressed_code_that_is_broken_gives_no_image() {
    let error = Image::from_title(&title(true), vec![0; 4]).err().unwrap();
    assert_eq!(error.message(), "compressed code shorter than its footer");
}
