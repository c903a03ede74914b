use recomp3ds::verify::{
    after_code, before_step, differences, nan32, nan64, native, regions, returned, same_vfp, start, turn, unwinds,
    Memory, Random, Region, Report, State, Stop, Turn, Verdict, HEAP, IMPORT_STUB, LIMIT, RETURN, STACK_SIZE,
    STACK_TOP, TLS,
};

fn memory() -> Memory {
    Memory::new(vec![
        Region { base: 0x1000, bytes: vec![1, 2, 3], writable: false },
        Region { base: 0x2000, bytes: vec![0xAA; 0x1001], writable: true },
    ])
}

#[test]
fn regions_fill_whole_pages() {
    let mut memory = memory();
    assert_eq!(memory.regions[0].bytes.len(), 0x1000);
    assert_eq!(memory.regions[1].bytes.len(), 0x2000);
    assert_eq!(memory.read32(0x1000), 0x0003_0201);
    assert_eq!(memory.read16(0x1FFF), 0xAA00);
    assert_eq!(memory.read8(0x3000), 0xAA);
    assert_eq!(memory.read8(0x3001), 0);
    assert_eq!(memory.faults, 0);
}

#[test]
fn what_is_written_reads_back() {
    let mut memory = memory();
    memory.write32(0x2FFE, 0x1122_3344);
    assert_eq!(memory.read32(0x2FFE), 0x1122_3344);
    assert_eq!(memory.read8(0x2FFD), 0xAA);
    memory.write16(0x2000, 0x5566);
    memory.write8(0x2002, 0x77);
    assert_eq!(memory.read32(0x2000), 0xAA77_5566);
    assert_eq!(memory.faults, 0);
}

#[test]
fn accesses_outside_count_as_faults() {
    let mut memory = memory();
    assert_eq!(memory.read32(0x0FFE), 0x0201_0000);
    assert_eq!(memory.faults, 2);
    // what is for reading only stays
    memory.write16(0x1000, 0xFFFF);
    assert_eq!(memory.faults, 4);
    assert_eq!(memory.read16(0x1000), 0x0201);
    assert_eq!(memory.read8(0xFFFF_FFFF), 0);
    assert_eq!(memory.faults, 5);
}

#[test]
fn copies_differ_where_they_were_written() {
    let pristine = memory();
    let mut a = pristine.duplicate();
    let mut b = pristine.duplicate();
    assert_eq!(a.first_difference(&b), None);
    a.write8(0x2345, 0);
    assert_eq!(a.first_difference(&b), Some(0x2345));
    b.write8(0x2340, 0);
    assert_eq!(a.first_difference(&b), Some(0x2340));
    a.read8(0);
    a.copy_from(&pristine);
    b.copy_from(&pristine);
    assert_eq!(a.first_difference(&b), None);
    assert_eq!(a.faults, 0);
}

#[test]
fn nans_in_memory_are_the_same() {
    let pristine = memory();
    let mut a = pristine.duplicate();
    let mut b = pristine.duplicate();
    a.write32(0x2010, 0x7FC0_0000);
    b.write32(0x2010, 0xFF80_0001);
    assert_eq!(a.first_difference(&b), None);
    a.write32(0x2018, 0);
    a.write32(0x201C, 0x7FF8_0000);
    b.write32(0x2018, 1);
    b.write32(0x201C, 0xFFF0_0000);
    assert_eq!(a.first_difference(&b), None);
    // infinity is not one
    b.write32(0x2010, 0x7F80_0000);
    assert_eq!(a.first_difference(&b), Some(0x2012));
}

#[test]
fn floats_are_nans_past_infinity() {
    assert!(nan32(f32::NAN.to_bits()) && nan32((-f32::NAN).to_bits()));
    assert!(!nan32(f32::INFINITY.to_bits()) && !nan32(1.5f32.to_bits()));
    assert!(nan64(f64::NAN.to_bits()) && !nan64(f64::NEG_INFINITY.to_bits()));
}

#[test]
fn vfp_registers_are_compared_as_values() {
    let mut a = vec![0u32; 32];
    let mut b = vec![0u32; 32];
    assert!(same_vfp(&a, &b));
    a[3] = 0x7FC0_0000;
    b[3] = 0x7FC0_0001;
    assert!(same_vfp(&a, &b));
    // two halves of a double
    (a[10], a[11]) = (1, 0x7FF8_0000);
    (b[10], b[11]) = (2, 0x7FF0_0000);
    assert!(same_vfp(&a, &b));
    b[31] = 1;
    assert!(!same_vfp(&a, &b));
}

#[test]
fn made_up_numbers() {
    let mut random = Random(1);
    assert_eq!(random.next(), 0x4082);
    assert_eq!(random.next(), 0x4106_0C01);
    assert_eq!(random.next(), 0x842F_6E86);
    assert_eq!(Random(1).heap_pointer(), 0x0800_4080);
}

#[test]
fn a_title_gets_its_memory() {
    let list = regions((0x0010_0000, &[1]), (0x0020_0000, &[2]), (0x0030_0000, &[3]), 2);
    let bases: Vec<u32> = list.iter().map(|region| region.base).collect();
    assert_eq!(
        bases,
        [0x0010_0000, 0x0020_0000, 0x0030_0000, HEAP, STACK_TOP - STACK_SIZE, TLS, IMPORT_STUB]
    );
    assert_eq!(list[2].bytes, [3, 0, 0]);
    assert_eq!(list[3].bytes.len(), 0x4_0000);
    assert_eq!(list[3].bytes[..8], [0x6E, 0x02, 0xB9, 0xEE, 0x8C, 0xB6, 0x00, 0x08]);
    assert_eq!(list[3].bytes[8..16], [0x7B, 0x4E, 0xCE, 0x1D, 0xF4, 0x7A, 0x02, 0x08]);
    assert!(list[4].bytes.iter().all(|&byte| byte == 0));
    assert_eq!(list[6].bytes, [0, 0, 0xA0, 0xE3, 0x1E, 0xFF, 0x2F, 0xE1]);
    let writable: Vec<bool> = list.iter().map(|region| region.writable).collect();
    assert_eq!(writable, [false, false, true, true, true, true, false]);
}

#[test]
fn functions_start_from_made_up_states() {
    let state = start(0x0010_0001);
    assert_eq!(
        state.registers,
        [
            0x8A,
            0xA0,
            0xE17A_D80F,
            0x0801_A1C8,
            0xC8,
            0x0800_8E80,
            0x0800_9434,
            0x0803_9E80,
            0x0800_F194,
            0xB6,
            0x0802_5170,
            0xF2,
            0x6B44_4F52,
            STACK_TOP - 0x1000,
            RETURN,
            0x0010_0000,
        ]
    );
    assert!(state.thumb);
    assert!(!state.n && !state.z && state.c && !state.v);
    assert_eq!(state.singles[..4], [2553, 3377, 12185, 14837]);
    assert_eq!(state.singles[31], 8008);
    assert_eq!(state.singles.len(), 32);
}

#[test]
fn a_run_stops_when_it_returned_or_takes_too_long() {
    assert!(returned(RETURN, false) && !returned(RETURN, true) && !returned(0, false));
    assert!(matches!(before_step(0, RETURN, false), Some(Stop::Returned)));
    assert!(matches!(before_step(LIMIT, RETURN, false), Some(Stop::Limit)));
    assert!(before_step(LIMIT - 1, 0, false).is_none());
    assert!(matches!(turn(RETURN, false, 0), Turn::Stop(Stop::Returned)));
    assert!(matches!(turn(0x100, false, 0), Turn::Stop(Stop::Limit)));
    assert!(matches!(turn(0x100, true, 1), Turn::Run(0x101)));
    assert!(matches!(turn(0x100, false, 1), Turn::Run(0x100)));
    assert!(matches!(after_code(1, 0x32), Some(Stop::Svc(0x32))));
    assert!(matches!(after_code(2, 0), Some(Stop::Limit)));
    assert!(after_code(0, 0).is_none() && after_code(3, 0).is_none());
}

#[test]
fn the_fallback_unwinds_when_it_went_elsewhere() {
    assert!(!unwinds(false, 0x100, 0x104, false));
    assert!(!unwinds(false, 0x100, 0x102, true));
    assert!(unwinds(false, 0x100, 0x104, true));
    assert!(unwinds(true, 0x100, 0x104, false));
}

#[test]
fn every_outcome_is_counted_once() {
    let mut report = Report::default();
    let other = || Stop::Other("Undefined".to_owned());
    assert_eq!(report.judge(&Stop::Returned, &Stop::Returned, false), Verdict::Agreed);
    assert_eq!(report.judge(&Stop::Svc(1), &Stop::Svc(1), false), Verdict::Agreed);
    assert_eq!(report.judge(&other(), &other(), false), Verdict::Agreed);
    assert_eq!(report.judge(&Stop::Limit, &Stop::Returned, true), Verdict::Stuck);
    assert_eq!(report.judge(&Stop::Svc(1), &Stop::Svc(2), false), Verdict::Mismatched { shown: true });
    assert_eq!(report.judge(&Stop::Returned, &Stop::Returned, true), Verdict::Mismatched { shown: true });
    assert_eq!(
        (report.returned, report.svc, report.other, report.stuck, report.mismatched),
        (1, 1, 1, 1, 2)
    );
    for _ in 0..18 {
        assert_eq!(report.judge(&Stop::Returned, &Stop::Limit, false), Verdict::Stuck);
        assert_eq!(report.judge(&Stop::Returned, &Stop::Svc(0), false), Verdict::Mismatched { shown: true });
    }
    assert_eq!(report.judge(&Stop::Returned, &Stop::Svc(0), false), Verdict::Mismatched { shown: false });
}

#[test]
fn reports_add_up() {
    assert_eq!(native(LIMIT - 100, 20, 30), 50);
    assert_eq!(native(LIMIT - 10, 20, 30), 0);
    let mut report = Report::default();
    report.ran(LIMIT - 100, 20, 30);
    assert_eq!((report.tested, report.native, report.interpreted, report.fallbacks), (1, 50, 20, 30));
    let mut total = Report { tested: usize::MAX, ..Report::default() };
    total.add(&report);
    total.add(&report);
    assert_eq!((total.tested, total.native), (usize::MAX, 100));
}

fn state() -> State {
    State { registers: vec![0; 16], flags: vec![0; 6], ge: 0, vfp: vec![0; 32], fpscr: 0, faults: 0 }
}

#[test]
fn differences_are_spelled_out() {
    assert!(differences(&state(), &state(), None).is_empty());
    let mut a = state();
    let mut b = state();
    a.registers[3] = 0x1234;
    b.flags = vec![0, 0, 1, 0, 0, 1];
    b.ge = 0xF;
    b.fpscr = 1;
    b.faults = 12;
    assert_eq!(
        differences(&a, &b, Some(0x0800_0000)),
        [
            "r3 00001234 against 00000000",
            "c 0 against 1",
            "thumb 0 against 1",
            "ge 0 against F",
            "vfp state",
            "memory at 08000000",
            "0 faults against 12",
        ]
    );
    // a NaN moved out of a VFP register
    let mut a = state();
    let mut b = state();
    a.registers[0] = 0x7FC0_0000;
    b.registers[0] = 0x7FC0_0001;
    assert!(differences(&a, &b, None).is_empty());
}

#[test]
fn stops_are_the_same_for_the_same_reason() {
    assert!(Stop::Svc(1).same(&Stop::Svc(1)) && !Stop::Svc(1).same(&Stop::Svc(2)));
    assert!(Stop::Limit.same(&Stop::Limit) && !Stop::Limit.same(&Stop::Returned));
    assert!(Stop::Other("a".to_owned()).same(&Stop::Other("a".to_owned())));
    assert!(!Stop::Other("a".to_owned()).same(&Stop::Other("b".to_owned())));
}

fn counts(report: &Report) -> [u64; 9] {
    [
        report.native,
        report.fallbacks,
        report.interpreted,
        report.tested as u64,
        report.returned as u64,
        report.svc as u64,
        report.stuck as u64,
        report.other as u64,
        report.mismatched as u64,
    ]
}

/// the report on a list of functions, each with its budget and its two stops.
fn report_on(list: &[(i32, Stop, Stop)]) -> Report {
    let mut report = Report::default();
    for (budget, expected, got) in list {
        report.ran(*budget, 3, 2);
        report.judge(expected, got, false);
    }
    report
}

#[test]
fn the_report_on_two_lists_is_the_sum_of_theirs() {
    let both = [
        (LIMIT - 10, Stop::Returned, Stop::Returned),
        (LIMIT - 20, Stop::Svc(1), Stop::Svc(2)),
        (LIMIT, Stop::Limit, Stop::Returned),
        (LIMIT - 30, Stop::Svc(7), Stop::Svc(7)),
    ];
    let mut total = report_on(&both[..2]);
    total.add(&report_on(&both[2..]));
    assert_eq!(counts(&report_on(&both)), counts(&total));
    assert_eq!(counts(&total), [45, 8, 12, 4, 1, 1, 1, 0, 1]);
    // nothing is added by no functions
    total.add(&Report::default());
    assert_eq!(counts(&total), counts(&report_on(&both)));
    let mut empty = Report::default();
    empty.add(&total);
    assert_eq!(counts(&empty), counts(&total));
}

#[test]
fn memory_is_pristine_again_after_every_access() {
    let pristine = memory();
    let mut used = pristine.duplicate();
    used.write32(0x2FFE, 0x1122_3344);
    used.write16(0x2000, 0x5566);
    used.write8(0x1000, 0xFF);
    used.read32(0);
    used.copy_from(&pristine);
    assert_eq!(used.faults, pristine.faults);
    for (a, b) in used.regions.iter().zip(&pristine.regions) {
        assert_eq!((a.base, a.writable), (b.base, b.writable));
        assert_eq!(a.bytes, b.bytes);
    }
}
