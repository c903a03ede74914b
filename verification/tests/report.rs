use recomp3ds::discover::{analyze, Byte, Program, Source};
use recomp3ds::image::Segment;
use recomp3ds::report::{count_instructions, count_source, count_thumb, largest, sample, Gap, Totals};
use recomp3ds::sorted::{sorted_items, sorted_keys};
use recomp3ds::{bytes, text};
use std::collections::{BTreeMap, BTreeSet};

const BASE: u32 = 0x0010_0000;

/// functions of one bx lr each, one of them Thumb, and a word nobody reaches.
fn program() -> Program {
    let words = [0xE12F_FF1Eu32, 0xE12F_FF1E, 0x4770_4770, 0xDEAD_BEEF];
    Program {
        text: Segment { base: BASE, bytes: words.iter().flat_map(|w| w.to_le_bytes()).collect() },
        seeds: vec![(BASE, Source::Entry), (BASE + 4, Source::Export), (BASE + 9, Source::Pointer)],
        slots: None,
    }
}

#[test]
fn totals_add_up() {
    let analysis = analyze(&program());
    let totals = Totals::of(&analysis);
    assert_eq!((totals.text, totals.functions, totals.code, totals.literal), (16, 3, 10, 0));
    assert_eq!(totals.untouched(), 6);
    assert_eq!(analysis.count(Byte::Unknown), 6);
    let twice = totals.add(totals).add(Totals::default());
    assert_eq!((twice.text, twice.functions, twice.untouched()), (32, 6, 12));
    let full = Totals { text: usize::MAX, ..Totals::default() };
    assert_eq!(full.add(totals).text, usize::MAX);
}

#[test]
fn functions_are_counted_by_how_they_were_found() {
    let analysis = analyze(&program());
    assert_eq!(count_source(&analysis, Source::Entry), 1);
    assert_eq!(count_source(&analysis, Source::Export), 1);
    assert_eq!(count_source(&analysis, Source::Pointer), 1);
    assert_eq!(count_source(&analysis, Source::Call), 0);
    assert_eq!(count_thumb(&analysis), 1);
    assert_eq!(count_instructions(&analysis), 3);
}

#[test]
fn the_longest_gaps_come_first() {
    let gap = |program, length| Gap { program, start: 0, length };
    let gaps = [gap(0, 4), gap(1, 8), gap(2, 4), gap(3, 16)];
    let programs = |most| largest(&gaps, most).iter().map(|gap| gap.program).collect::<Vec<_>>();
    assert_eq!(programs(10), [3, 1, 0, 2]);
    assert_eq!(programs(3), [3, 1, 0]);
    assert!(programs(0).is_empty());
}

#[test]
fn a_sample_is_spread_over_the_program() {
    let analysis = analyze(&program());
    assert_eq!(sample(&analysis, 0, 500, None), [BASE, BASE + 4, BASE + 9]);
    assert_eq!(sample(&analysis, 0x100, 1, None), [BASE + 0x100]);
    assert_eq!(sample(&analysis, 0, 2, None), [BASE, BASE + 4]);
    assert!(sample(&analysis, 0, 0, None).is_empty());
    assert_eq!(sample(&analysis, 0, 0, Some(BASE + 9)), [BASE + 9]);
    assert!(sample(&analysis, 0, 500, Some(BASE + 8)).is_empty());
    // every second of six
    let words = [0xE12F_FF1Eu32; 6];
    let six = Program {
        text: Segment { base: BASE, bytes: words.iter().flat_map(|w| w.to_le_bytes()).collect() },
        seeds: (0..6).map(|i| (BASE + i * 4, Source::Export)).collect(),
        slots: None,
    };
    assert_eq!(sample(&analyze(&six), 0, 3, None), [BASE, BASE + 8, BASE + 16]);
}

#[test]
fn numbers_as_text() {
    assert_eq!(text::decimal(0), "0");
    assert_eq!(text::decimal(4_294_967_295), "4294967295");
    assert_eq!(text::decimal64(u64::MAX), "18446744073709551615");
    assert_eq!(text::hexadecimal(0xBEEF), "BEEF");
    assert_eq!(text::hexadecimal(0), "0");
    assert_eq!(text::word(0xBEEF), "0000BEEF");
    assert_eq!(text::number_text(7, 10, 3), "007");
    assert_eq!(text::number_text(1234, 10, 3), "1234");
}

#[test]
fn holes_are_filled_in_order() {
    assert_eq!(text::form2("{} and {}", "a", "b"), "a and b");
    assert_eq!(text::form1("{ {} }", "{}"), "{ {} }");
    let mut out = "x".to_owned();
    text::emit3(&mut out, "{}{}{};", "a", "b", "c");
    assert_eq!(out, "xabc;\n");
}

#[test]
fn texts_end_at_a_zero() {
    assert_eq!(text::ascii(b"abc\0def"), "abc");
    assert_eq!(text::ascii(b"abc"), "abc");
    assert_eq!(text::ascii(b""), "");
    assert_eq!(text::ascii(&[b'a', 0xFF, b'b']), "a\u{FFFD}b");
    assert_eq!(text::ascii("h\u{E9}".as_bytes()), "h\u{E9}");
}

#[test]
fn utf16_gives_characters() {
    let bytes = |units: &[u16]| units.iter().flat_map(|u| u.to_le_bytes()).collect::<Vec<u8>>();
    assert_eq!(text::utf16(&bytes(&[0x41, 0x30DD])), "A\u{30DD}");
    assert_eq!(text::utf16(&bytes(&[0xD83D, 0xDE00])), "\u{1F600}");
    assert_eq!(text::utf16(&bytes(&[0xD83D, 0x41])), "\u{FFFD}A");
    assert_eq!(text::utf16(&bytes(&[0xDE00])), "\u{FFFD}");
    assert_eq!(text::utf16(&[0x41, 0, 0x42]), "A");
}

#[test]
fn paths_have_parts() {
    let parts = |path: &str| text::split_path(path).into_iter().map(String::from_iter).collect::<Vec<String>>();
    assert_eq!(parts("/a//b/c"), ["a", "b", "c"]);
    assert!(parts("//").is_empty());
    assert!(text::same_text(&['A', 'b'], &['a', 'B']));
    assert!(!text::same_text(&['A'], &['a', 'B']));
    assert_eq!(text::to_lower('Z'), 'z');
    assert_eq!(text::to_lower('\u{C9}'), '\u{C9}');
}

#[test]
fn words_are_little_endian() {
    let mut buffer = vec![1, 2, 3, 4, 5, 6, 7, 8];
    assert_eq!(bytes::u16_at(&buffer, 1), 0x0302);
    assert_eq!(bytes::u32_at(&buffer, 2), 0x0605_0403);
    assert_eq!(bytes::u64_at(&buffer, 0), 0x0807_0605_0403_0201);
    bytes::put32(&mut buffer, 2, 0xCAFE_F00D);
    assert_eq!(bytes::u32_at(&buffer, 2), 0xCAFE_F00D);
    assert_eq!((buffer[1], buffer[6]), (2, 7));
    assert_eq!(bytes::part(&buffer, 6, 8), Some(&[7u8, 8][..]));
    assert_eq!(bytes::part(&buffer, 6, 9), None);
    assert_eq!(bytes::zeros(3), [0, 0, 0]);
}

#[test]
fn keys_come_from_the_lowest_up() {
    let map = BTreeMap::from([(3u32, 'c'), (1, 'a'), (0xFFFF_FFFF, 'z')]);
    assert_eq!(sorted_keys(&map), [1, 3, 0xFFFF_FFFF]);
    assert_eq!(sorted_items(&BTreeSet::from([5u32, 4])), [4, 5]);
    assert!(sorted_items(&BTreeSet::new()).is_empty());
}
