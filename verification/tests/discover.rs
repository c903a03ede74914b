use recomp3ds::discover::{analyze, Analysis, Byte, Discovery, Mode, Program, Source};
use recomp3ds::image::{Image, Segment};

const BASE: u32 = 0x0010_0000;

fn bytes_of(words: &[u32]) -> Vec<u8> {
    words.iter().flat_map(|w| w.to_le_bytes()).collect()
}

fn image(words: &[u32]) -> Image {
    let empty = |base| Segment { base, bytes: Vec::new() };
    Image {
        entry: BASE,
        text: Segment { base: BASE, bytes: bytes_of(words) },
        rodata: empty(0x0020_0000),
        data: empty(0x0030_0000),
    }
}

fn analysis_of(words: &[u32]) -> Analysis {
    analyze(&image(words).into_program(&[], &[]))
}

#[test]
fn follows_calls_and_marks_literals() {
    let analysis = analysis_of(&[
        0xEB00_0002, // bl 0x100010
        0xEF00_0000, // svc 0
        0xEAFF_FFFE, // b .
        0xDEAD_BEEF, // never reached
        0xE59F_0000, // ldr r0, [pc] (literal at 0x100018)
        0xE12F_FF1E, // bx lr
        0x0010_0000, // the literal
    ]);
    assert_eq!(analysis.functions.keys().copied().collect::<Vec<_>>(), [BASE, BASE + 0x10]);
    assert_eq!(analysis.functions[&(BASE + 0x10)].source, Source::Call);
    assert_eq!(analysis.count(Byte::Code), 5 * 4);
    assert_eq!(analysis.count(Byte::Literal), 4);
    assert_eq!(analysis.largest_gaps(BASE, 1), [(BASE + 0xC, 4)]);
    assert_eq!(analysis.svc_sites, 1);
}

#[test]
fn a_switch_table_leads_to_every_case() {
    let analysis = analysis_of(&[
        0xE350_0001, // cmp r0, 1
        0x908F_F100, // addls pc, pc, r0 lsl 2
        0xEA00_0002, // b default (0x100018)
        0xEA00_0002, // b case 0 (0x10001c)
        0xEA00_0002, // b case 1 (0x100020)
        0xE12F_FF1E, // bx lr, unreachable filler
        0xE12F_FF1E, // default
        0xE12F_FF1E, // case 0
        0xE12F_FF1E, // case 1
    ]);
    assert_eq!(analysis.jump_tables, 1);
    assert_eq!(analysis.count(Byte::Code), 8 * 4);
}

#[test]
fn an_address_table_is_sized_by_its_compare() {
    let analysis = analysis_of(&[
        0xE350_0001, // cmp r0, 1
        0x979F_F100, // ldrls pc, [pc, r0 lsl 2]
        0xE12F_FF1E, // bx lr, the default case
        BASE + 0x14, // case 0
        BASE + 0x18, // case 1
        0xE12F_FF1E, // case 0
        0xE12F_FF1E, // case 1
    ]);
    assert_eq!(analysis.jump_tables, 1);
    assert_eq!(analysis.count(Byte::Literal), 8);
    assert_eq!(analysis.count(Byte::Code), 5 * 4);
}

#[test]
fn blx_leads_into_thumb_code() {
    let analysis = analysis_of(&[
        0xFA00_0000, // blx 0x100008
        0xE12F_FF1E, // bx lr
        0x4770_2001, // movs r0, 1 then bx lr, in Thumb
    ]);
    let thumb = &analysis.functions[&(BASE + 8)];
    assert_eq!(thumb.mode, Mode::Thumb);
    assert_eq!(thumb.instructions.len(), 2);
}

#[test]
fn discover_pointers_in_data_become_functions() {
    let mut image = image(&[0xE12F_FF1E, 0x4770_4770, 0xE12F_FF1E]);
    image.rodata.bytes = bytes_of(&[BASE + 8, BASE + 5]);
    let analysis = analyze(&image.into_program(&[], &[]));
    assert_eq!(analysis.functions[&(BASE + 8)].source, Source::Pointer);
    assert_eq!(analysis.functions[&(BASE + 4)].mode, Mode::Thumb);
}

#[test]
fn labels_are_where_execution_can_come_back_to() {
    let analysis = analysis_of(&[
        0xEB00_0003, // bl 0x100014
        0xE3A0_0000, // mov r0, 0
        0x0A00_0000, // beq 0x100010
        0xEF00_0000, // svc 0
        0xE12F_FF1E, // bx lr
        0xE12F_FF1E, // bx lr
    ]);
    let function = &analysis.functions[&BASE];
    assert_eq!(function.instructions, [BASE, BASE + 4, BASE + 8, BASE + 12, BASE + 16]);
    let labels: Vec<u32> = function.labels.iter().copied().collect();
    assert_eq!(labels, [BASE, BASE + 4, BASE + 12, BASE + 16]);
    // the filler after the first bx lr is only reached by the call
    assert_eq!(analysis.functions[&(BASE + 20)].source, Source::Call);
}

#[test]
fn every_case_of_a_branch_table_is_a_label() {
    let analysis = analysis_of(&[
        0x908F_F100, // addls pc, pc, r0 lsl 2
        0xEA00_0001, // b default (0x100010)
        0xEA00_0001, // b case 0 (0x100014)
        0xE12F_FF1E, // filler
        0xE12F_FF1E, // default
        0xE12F_FF1E, // case 0
    ]);
    let labels: Vec<u32> = analysis.functions[&BASE].labels.iter().copied().collect();
    assert_eq!(labels, [BASE, BASE + 4, BASE + 8, BASE + 16, BASE + 20]);
}

#[test]
fn every_address_of_a_table_is_a_label_or_a_function() {
    let analysis = analysis_of(&[
        0xE350_0001, // cmp r0, 1
        0x979F_F100, // ldrls pc, [pc, r0 lsl 2]
        0xE12F_FF1E, // bx lr, the default case
        BASE + 0x14, // case 0
        BASE + 0x19, // case 1, in Thumb
        0xE12F_FF1E, // case 0
        0x4770_4770, // case 1
    ]);
    let function = &analysis.functions[&BASE];
    let labels: Vec<u32> = function.labels.iter().copied().collect();
    assert_eq!(labels, [BASE, BASE + 8, BASE + 0x14]);
    assert_eq!(analysis.functions[&(BASE + 0x18)].mode, Mode::Thumb);
}

#[test]
fn instructions_are_labels_or_follow_one() {
    let analysis = analysis_of(&[
        0xE3A0_0000, // mov r0, 0
        0xE3A0_1000, // mov r1, 0
        0x0A00_0000, // beq 0x100010
        0xE3A0_2000, // mov r2, 0
        0xE3A0_3000, // mov r3, 0
        0xE12F_FF1E, // bx lr
    ]);
    let function = &analysis.functions[&BASE];
    for &address in &function.instructions {
        assert!(function.labels.contains(&address) || function.instructions.contains(&(address - 4)));
    }
    let labels: Vec<u32> = function.labels.iter().copied().collect();
    assert_eq!(labels, [BASE, BASE + 12, BASE + 16]);
}

#[test]
fn an_entry_that_is_not_code_has_no_label() {
    let mut image = image(&[0xE12F_FF1E]);
    image.entry = BASE + 0x1000;
    let analysis = analyze(&image.into_program(&[], &[]));
    let function = &analysis.functions[&(BASE + 0x1000)];
    assert!(function.instructions.is_empty());
    assert!(function.labels.is_empty());
}

#[test]
fn a_lone_half_of_bl_is_a_dead_end() {
    let program = Program {
        text: Segment { base: BASE, bytes: vec![0x00, 0x20, 0x00, 0xF8] },
        seeds: vec![(BASE + 1, Source::Export)],
        slots: None,
    };
    let analysis = analyze(&program);
    assert_eq!(analysis.dead_ends, 1);
    assert_eq!(analysis.count(Byte::Code), 2);
    assert_eq!(analysis.functions[&BASE].source, Source::Export);
}

#[test]
fn literals_outside_the_slots_are_not_pointers() {
    let words = [
        0xE59F_0000, // ldr r0, [pc] (literal at 0x100008)
        0xE12F_FF1E, // bx lr
        BASE + 0xC,  // the literal
        0xE12F_FF1E, // bx lr
    ];
    let with = |slots| {
        let program = Program {
            text: Segment { base: BASE, bytes: bytes_of(&words) },
            seeds: vec![(BASE, Source::Entry)],
            slots,
        };
        analyze(&program).functions.contains_key(&(BASE + 0xC))
    };
    assert!(with(None));
    assert!(with(Some([BASE + 8].into_iter().collect())));
    assert!(!with(Some([BASE].into_iter().collect())));
}

#[test]
fn seeds_that_are_no_code_address_are_dropped() {
    let program = Program {
        text: Segment { base: BASE, bytes: bytes_of(&[0xE12F_FF1E, 0xE12F_FF1E]) },
        // not aligned for ARM, and outside
        seeds: vec![(BASE + 2, Source::Import), (BASE + 0x100, Source::Relocation)],
        slots: None,
    };
    assert!(analyze(&program).functions.is_empty());
}

#[test]
fn what_is_known_comes_before_what_points() {
    let program = Program {
        text: Segment { base: BASE, bytes: bytes_of(&[0xE12F_FF1E]) },
        seeds: vec![(BASE, Source::Pointer), (BASE, Source::Export)],
        slots: None,
    };
    assert_eq!(analyze(&program).functions[&BASE].source, Source::Export);
}

#[test]
fn gaps_are_ranked_by_length() {
    let mut map = vec![Byte::Unknown; 2];
    map.extend([Byte::Code, Byte::Unknown, Byte::Unknown, Byte::Unknown, Byte::Literal]);
    map.extend([Byte::Unknown, Byte::Unknown]);
    let analysis = Analysis {
        functions: Default::default(),
        map,
        indirect_sites: 0,
        jump_tables: 0,
        svc_sites: 0,
        dead_ends: 0,
    };
    assert_eq!(analysis.largest_gaps(BASE, 9), [(BASE + 3, 3), (BASE, 2), (BASE + 7, 2)]);
    assert_eq!(analysis.largest_gaps(BASE, 2), [(BASE + 3, 3), (BASE, 2)]);
    assert_eq!(analysis.largest_gaps(BASE, 0), []);
    assert_eq!(analysis.count(Byte::Unknown), 7);
}

#[test]
fn code_after_a_media_instruction_is_reached() {
    let analysis = analysis_of(&[
        0xE750_F211, // smmul r0, r1, r2
        0xE12F_FF1E, // bx lr
    ]);
    assert_eq!(analysis.functions[&BASE].instructions.len(), 2);
    assert_eq!(analysis.count(Byte::Code), 2 * 4);
    assert_eq!(analysis.indirect_sites, 0);
}

#[test]
fn every_function_but_the_entry_is_in_the_text() {
    let mut outside = image(&[0xE12F_FF1E]);
    outside.entry = 0x0050_0000;
    let analysis = analyze(&outside.into_program(&[BASE, 0x0060_0000], &[BASE + 4]));
    assert_eq!(analysis.functions.keys().copied().collect::<Vec<_>>(), [BASE, 0x0050_0000]);
    assert_eq!(analysis.functions[&0x0050_0000].source, Source::Entry);
    assert!(analysis.functions[&0x0050_0000].instructions.is_empty());
    assert_eq!(analysis.count(Byte::Code), 4);
}

#[test]
fn another_function_takes_nothing_away() {
    let words = [
        0xE59F_0000, // ldr r0, [pc] (literal at 0x100008)
        0xE12F_FF1E, // bx lr
        0x0000_0000, // the literal, andeq r0, r0, r0 as code
        0xE12F_FF1E, // bx lr
    ];
    let one = analyze(&image(&words).into_program(&[], &[]));
    let two = analyze(&image(&words).into_program(&[BASE + 8], &[]));
    assert_eq!((one.count(Byte::Code), one.count(Byte::Literal)), (8, 4));
    for i in 0..one.map.len() {
        assert!(one.map[i] != Byte::Code || two.map[i] == Byte::Code);
        assert!(one.map[i] == Byte::Unknown || two.map[i] != Byte::Unknown);
    }
    assert_eq!(two.functions[&BASE].instructions, one.functions[&BASE].instructions);
    assert_eq!(two.functions[&BASE].source, Source::Entry);
    assert_eq!(two.functions.len(), 2);
}

#[test]
fn a_case_behind_a_branch_taken_for_a_literal_is_reached() {
    let analysis = analysis_of(&[
        0x0A00_0002, // beq 0x100010
        0xE59F_1008, // ldr r1, [pc, 8] (literal at 0x100014)
        0xEA00_0001, // b 0x100014
        0xE12F_FF1E, // never reached
        0x908F_F100, // addls pc, pc, r0 lsl 2
        0xEA00_0000, // b case 0 (0x10001c)
        0xE12F_FF1E, // never reached
        0xE12F_FF1E, // case 0
    ]);
    assert_eq!(analysis.count(Byte::Code), 24);
    assert_eq!(analysis.map[0x1C], Byte::Code);
    assert!(analysis.functions[&BASE].instructions.contains(&(BASE + 0x1C)));
}

#[test]
fn looking_into_a_function_only_adds() {
    let program = image(&[
        0xEB00_0003, // bl 0x100014
        0xE59F_0000, // ldr r0, [pc] (literal at 0x10000c)
        0xE12F_FF1E, // bx lr
        BASE + 0x18, // the literal
        0xE12F_FF1E, // taken for a literal already
        0xE12F_FF1E, // bx lr
        0xE12F_FF1E, // bx lr
    ])
    .into_program(&[], &[]);
    let mut map = vec![Byte::Unknown; program.text.bytes.len()];
    map[0x10] = Byte::Literal;
    map[0x18] = Byte::Code;
    let waiting = (BASE + 4, Mode::Arm, Source::Export);
    let mut discovery = Discovery {
        program: &program,
        analysis: Analysis {
            functions: Default::default(),
            map,
            indirect_sites: 0,
            jump_tables: 0,
            svc_sites: 0,
            dead_ends: 0,
        },
        queue: [waiting].into_iter().collect(),
    };
    // nothing comes from outside
    let before = discovery.analysis.map.clone();
    assert!(discovery.explore(0x0050_0000, Mode::Arm).0.is_empty());
    assert_eq!(discovery.analysis.map, before);
    assert_eq!(discovery.queue, [waiting]);

    let (instructions, labels) = discovery.explore(BASE, Mode::Arm);
    assert_eq!(instructions, [BASE, BASE + 4, BASE + 8]);
    assert_eq!(labels.into_iter().collect::<Vec<_>>(), [BASE, BASE + 4]);
    assert_eq!(discovery.analysis.map[0x10], Byte::Literal);
    assert_eq!(discovery.analysis.map[0x18], Byte::Code);
    assert_eq!(discovery.analysis.count(Byte::Code), 13);
    assert!(discovery.analysis.functions.is_empty());
    assert_eq!(
        discovery.queue,
        [waiting, (BASE + 0x14, Mode::Arm, Source::Call), (BASE + 0x18, Mode::Arm, Source::Pointer)]
    );
}
