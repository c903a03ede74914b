use recomp3ds::codegen::{generate, written_entries, Unit};
use recomp3ds::discover::{analyze, Program, Source};
use recomp3ds::image::Segment;
use recomp3ds::{abi, compile};

const BASE: u32 = 0x0010_0000;

fn program(base: u32, words: &[u32], seeds: &[(u32, Source)]) -> Program {
    let bytes = words.iter().flat_map(|w| w.to_le_bytes()).collect();
    Program { text: Segment { base, bytes }, seeds: seeds.to_vec(), slots: None }
}

fn executable() -> Program {
    program(
        BASE,
        &[
            0xEB00_0001, // bl 0x10000c
            0xEF00_0001, // svc 1
            0xEAFF_FFFE, // b .
            0xE12F_FF1E, // bx lr
        ],
        &[(BASE, Source::Entry)],
    )
}

#[test]
fn a_program_becomes_c() {
    let program = executable();
    let analysis = analyze(&program);
    let files = generate("/* the interface */\n", &[Unit { module: None, program: &program, analysis: &analysis }]);
    let names: Vec<&str> = files.iter().map(|(name, _)| name.as_str()).collect();
    assert_eq!(names, ["recomp.h", "functions.h", "code000.c", "entries.c"]);
    assert_eq!(files[0].1, "/* the interface */\n");
    assert_eq!(files[1].1, "void f_00100000(Context *ctx);\nvoid f_0010000C(Context *ctx);\n");
    assert_eq!(
        files[2].1,
        "#include \"recomp.h\"
#include \"functions.h\"

void f_00100000(Context *ctx) {
    uint32_t target = ctx->r[15];
    if (LIKELY(target == 0x00100000u && !ctx->thumb)) goto L_00100000;
dispatch:
    if (!ctx->thumb) switch (target) {
    case 0x00100000u: goto L_00100000;
    case 0x00100004u: goto L_00100004;
    case 0x00100008u: goto L_00100008;
    }
    ctx->r[15] = target;
    CALL(recomp_call);
    return;
L_00100000:
    BUDGET(0x00100000u, 1);
    /* 00100000 EB000001 */
    ctx->r[14] = 0x00100004u; ctx->r[15] = 0x0010000Cu;
    CALL(f_0010000C);
    RETURNED(0x00100004u);
L_00100004:
    BUDGET(0x00100004u, 1);
    /* 00100004 EF000001 */
    SVC(0x00100008u, 0x1u);
L_00100008:
    BUDGET(0x00100008u, 1);
    /* 00100008 EAFFFFFE */
    goto L_00100008;
}

void f_0010000C(Context *ctx) {
    uint32_t target = ctx->r[15];
    if (LIKELY(target == 0x0010000Cu && !ctx->thumb)) goto L_0010000C;
dispatch:
    if (!ctx->thumb) switch (target) {
    case 0x0010000Cu: goto L_0010000C;
    }
    ctx->r[15] = target;
    CALL(recomp_call);
    return;
L_0010000C:
    BUDGET(0x0010000Cu, 1);
    /* 0010000C E12FFF1E */
    RETURN_TO(ctx->r[14]);
}

"
    );
    assert_eq!(
        files[3].1,
        "#include \"recomp.h\"
#include \"functions.h\"

RECOMP_EXPORT const uint32_t recomp_abi = RECOMP_ABI;
RECOMP_EXPORT const uint32_t recomp_entry_count = 4;
RECOMP_EXPORT const Entry recomp_entries[] = {
    {0x00100000u, f_00100000},
    {0x00100004u, f_00100000},
    {0x00100008u, f_00100000},
    {0x0010000Cu, f_0010000C},
};
RECOMP_EXPORT const uint32_t recomp_module_count = 0;
RECOMP_EXPORT const Module recomp_modules[] = {
};
"
    );
    assert_eq!(compile::sources(&files), ["code000.c", "entries.c"]);
}

#[test]
fn modules_get_files_of_their_own() {
    let main = executable();
    let module = program(
        0x200,
        &[
            0x4770_2001, // movs r0, 1 then bx lr, in Thumb
        ],
        &[(0x201, Source::Export)],
    );
    let (first, second) = (analyze(&main), analyze(&module));
    let files = generate(
        "",
        &[
            Unit { module: None, program: &main, analysis: &first },
            Unit { module: Some("Field"), program: &module, analysis: &second },
        ],
    );
    let names: Vec<&str> = files.iter().map(|(name, _)| name.as_str()).collect();
    assert_eq!(names, ["recomp.h", "functions.h", "module000.h", "code000.c", "code001.c", "entries.c"]);
    assert_eq!(files[2].1, "extern uint32_t recomp_base_000;\nvoid m000_t_00000200(Context *ctx);\n");
    assert_eq!(
        files[4].1,
        "#include \"recomp.h\"
#include \"module000.h\"

void m000_t_00000200(Context *ctx) {
    const uint32_t module = recomp_base_000;
    uint32_t target = ctx->r[15];
    if (LIKELY(target == (module + 0x00000200u) && ctx->thumb)) goto L_00000200;
dispatch:
    if (ctx->thumb) switch (target - module) {
    case 0x00000200u: goto L_00000200;
    }
    ctx->r[15] = target;
    CALL(recomp_call);
    return;
L_00000200:
    BUDGET((module + 0x00000200u), 2);
    /* 00000200 2001 */
    ctx->r[0] = 1u; ctx->n = 0; ctx->z = 0;
    /* 00000202 4770 */
    RETURN_TO(ctx->r[14]);
}

"
    );
    let tables = &files[5].1;
    assert!(tables.contains("#include \"functions.h\"\n#include \"module000.h\"\n\n"));
    assert!(tables.contains(
        "uint32_t recomp_base_000;\nstatic const Entry recomp_entries_000[] = {\n    {0x00000201u, m000_t_00000200},\n};\n"
    ));
    assert!(tables.contains("recomp_module_count = 1;\n"));
    assert!(tables.contains("    {\"Field\", &recomp_base_000, 0x00000204u, 1, recomp_entries_000},\n"));
}

#[test]
fn what_runs_into_nothing_goes_back_to_the_dispatch() {
    let program = program(BASE, &[0xE3A0_0000], &[(BASE, Source::Entry)]);
    let analysis = analyze(&program);
    let files = generate("", &[Unit { module: None, program: &program, analysis: &analysis }]);
    assert!(files[2].1.ends_with("    }\n    target = 0x00100004u; goto dispatch;\n}\n\n"));
}

#[test]
fn every_label_has_an_entry_and_is_paid_for() {
    let program = executable();
    let analysis = analyze(&program);
    let files = generate("", &[Unit { module: None, program: &program, analysis: &analysis }]);
    for (&entry, function) in &analysis.functions {
        let mut paid = 0;
        for label in &function.labels {
            assert!(files[3].1.contains(&format!("{{0x{label:08X}u, f_{entry:08X}}}")));
            let budget = format!("BUDGET(0x{label:08X}u, ");
            let after = files[2].1.split(&budget).nth(1).unwrap();
            paid += after.split(')').next().unwrap().parse::<usize>().unwrap();
        }
        assert_eq!(paid, function.instructions.len());
    }
}

#[test]
fn a_host_finds_every_label() {
    let program = executable();
    let analysis = analyze(&program);
    let files = generate("", &[Unit { module: None, program: &program, analysis: &analysis }]);
    let table = files[3].1.split("recomp_entries[] = {\n").nth(1).unwrap().split("};").next().unwrap();
    let entries: Vec<u32> = table
        .lines()
        .filter_map(|line| line.trim().strip_prefix("{0x"))
        .map(|line| u32::from_str_radix(&line[..8], 16).unwrap())
        .collect();
    let library = abi::Library::new(entries, Vec::new());
    for function in analysis.functions.values() {
        for &label in &function.labels {
            assert!(matches!(library.lookup(label), Some(abi::Found { module: None, .. })));
        }
    }
    assert!(library.lookup(BASE + 1).is_none());
}

#[test]
fn an_entry_is_the_function_that_starts_there() {
    // b 0x100008, bx lr, and a function that starts at 0x100008
    let program = program(
        BASE,
        &[0xEA00_0000, 0xE12F_FF1E, 0xE12F_FF1E],
        &[(BASE, Source::Entry), (BASE + 8, Source::Export)],
    );
    let analysis = analyze(&program);
    assert_eq!(written_entries(&analysis), [BASE, BASE + 8]);
    assert!(analysis.functions[&BASE].labels.contains(&(BASE + 8)));
    let files = generate("", &[Unit { module: None, program: &program, analysis: &analysis }]);
    assert!(files[3].1.contains("    {0x00100008u, f_00100008},\n"));
    assert!(files[2].1.contains("    goto L_00100008;\n"));
}

#[test]
fn files_hold_so_many_instructions() {
    // three functions of 9999 nops and a return each
    let mut words = Vec::new();
    for _ in 0..3 {
        words.extend(vec![0xE320_F000; 9_999]);
        words.push(0xE12F_FF1E);
    }
    let seeds: Vec<(u32, Source)> = (0..3).map(|i| (BASE + i * 40_000, Source::Export)).collect();
    let program = program(BASE, &words, &seeds);
    let analysis = analyze(&program);
    let files = generate("", &[Unit { module: None, program: &program, analysis: &analysis }]);
    let names: Vec<&str> = files.iter().map(|(name, _)| name.as_str()).collect();
    assert_eq!(names, ["recomp.h", "functions.h", "code000.c", "code001.c", "entries.c"]);
    assert!(files[2].1.contains("void f_00109C40("));
    assert!(files[3].1.contains("BUDGET(0x00113880u, 10000);"));
}

fn module(entries: Vec<u32>) -> abi::Module {
    abi::Module { name: "Field".to_owned(), size: 0x1000, entries }
}

#[test]
fn code_is_found_in_the_executable_and_in_loaded_modules() {
    let mut library =
        abi::Library::new(vec![0x10, 0x21, 0x30], vec![module(vec![0x200, 0x301]), module(vec![0x204])]);
    assert_eq!(library.entries(), [0x10, 0x21, 0x30]);
    assert_eq!(library.modules().len(), 2);
    assert_eq!(library.lookup(0x21), Some(abi::Found { module: None, entry: 1 }));
    assert_eq!(library.lookup(0x20), None);
    assert_eq!(library.lookup(0x0A00_0200), None);
    library.place(0, 0x0A00_0000);
    library.place(1, 0x0B00_0000);
    assert_eq!(library.lookup(0x0A00_0301), Some(abi::Found { module: Some(0), entry: 1 }));
    assert_eq!(library.lookup(0x0B00_0204), Some(abi::Found { module: Some(1), entry: 0 }));
    assert_eq!(library.lookup(0x0A00_0204), None);
    // placed again it is only at the new place
    library.place(0, 0x0C00_0000);
    assert_eq!(library.placed.len(), 2);
    assert_eq!(library.lookup(0x0A00_0200), None);
    assert_eq!(library.lookup(0x0C00_0200), Some(abi::Found { module: Some(0), entry: 0 }));
    library.place(0, 0);
    assert_eq!(library.lookup(0x0C00_0200), None);
    assert_eq!(library.placed.len(), 1);
}

#[test]
fn a_module_has_the_addresses_up_to_its_size() {
    let size = |size, entries| abi::Module { name: "Field".to_owned(), size, entries };
    let mut library =
        abi::Library::new(vec![0x0A00_0004], vec![size(0x10, vec![0, 4, 0x10]), size(0x20, vec![0, 0x1C])]);
    library.place(0, 0x0A00_0000);
    library.place(1, 0x0A00_0010);
    assert_eq!(library.lookup(0x0A00_0000), Some(abi::Found { module: Some(0), entry: 0 }));
    // the executable goes first
    assert_eq!(library.lookup(0x0A00_0004), Some(abi::Found { module: None, entry: 0 }));
    // past the end of the first is the second
    assert_eq!(library.lookup(0x0A00_0010), Some(abi::Found { module: Some(1), entry: 0 }));
    assert_eq!(library.lookup(0x0A00_002C), Some(abi::Found { module: Some(1), entry: 1 }));
    assert_eq!(library.lookup(0x09FF_FFFC), None);
    assert_eq!(library.lookup(0x0A00_0030), None);
    // placing one leaves the other where it is
    library.place(0, 0x0B00_0000);
    assert_eq!(library.lookup(0x0A00_002C), Some(abi::Found { module: Some(1), entry: 1 }));
    assert_eq!(library.lookup(0x0A00_0000), None);
    assert_eq!(library.lookup(0x0B00_0004), Some(abi::Found { module: Some(0), entry: 1 }));
    for placed in &library.placed {
        assert_eq!(placed.size, library.modules[placed.index].size);
    }
}

#[test]
fn every_table_is_taken() {
    let mut library = abi::Library::new(vec![3, 1, 2, 1], vec![module(vec![9, 4])]);
    assert_eq!(library.entries(), [3, 1, 2, 1]);
    assert_eq!(library.modules()[0].entries, [9, 4]);
    library.place(0, 0x100);
    // whatever is found is what was looked for
    for address in 0..0x120 {
        if let Some(found) = library.lookup(address) {
            let entry = match found.module {
                None => library.entries[found.entry],
                Some(index) => 0x100 + library.modules[index].entries[found.entry],
            };
            assert_eq!(entry, address);
        }
    }
    assert_eq!(library.lookup(5), None);
    // one of two that are the same is found
    let twice = abi::Library::new(vec![1, 1, 2], Vec::new());
    assert!(matches!(twice.lookup(1), Some(abi::Found { module: None, entry: 0 | 1 })));
    assert_eq!(twice.lookup(2), Some(abi::Found { module: None, entry: 2 }));
    assert_eq!(abi::Library::new(Vec::new(), Vec::new()).lookup(0), None);
}

#[test]
fn another_version_is_refused() {
    assert!(abi::check_version(4).is_ok());
    assert_eq!(abi::check_version(3), Err("the library speaks version 3 of the interface, not 4".to_owned()));
}

#[test]
fn compiling_says_what_failed() {
    assert_eq!(compile::outcome(&[]), Ok(()));
    let failed = ["code000.c".to_owned(), "entries.c".to_owned()];
    assert_eq!(compile::outcome(&failed), Err("2 failed to compile, code000.c entries.c".to_owned()));
    assert!(compile::flags().contains(&"-ffp-contract=off".to_owned()));
    assert_eq!(compile::library_name(0x0004_0000_0011_C500), "000400000011C500.so");
}
