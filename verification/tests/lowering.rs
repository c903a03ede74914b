use recomp3ds::codegen::{arm, call, jump, key, recompiles, thumb, vfp, Scope};
use recomp3ds::discover::{Function, Mode, Source};
use std::collections::BTreeSet;

const A: u32 = 0x0010_0000;

fn arm_text(op: u32) -> (String, bool) {
    let labels = BTreeSet::new();
    let functions = BTreeSet::new();
    let scope = Scope { labels: &labels, functions: &functions, module: None };
    let mut out = String::new();
    let on = arm::lower(&mut out, &scope, A, op);
    (out, on)
}

fn arm_on(op: u32) -> String {
    let (text, on) = arm_text(op);
    assert!(on, "{op:08X}");
    text
}

fn arm_off(op: u32) -> String {
    let (text, on) = arm_text(op);
    assert!(!on, "{op:08X}");
    text
}

fn thumb_text(op: u32, second: u32) -> (String, bool) {
    let labels = BTreeSet::new();
    let functions = BTreeSet::new();
    let scope = Scope { labels: &labels, functions: &functions, module: None };
    let mut out = String::new();
    let on = thumb::lower(&mut out, &scope, A, op, second);
    (out, on)
}

fn thumb_on(op: u32) -> String {
    let (text, on) = thumb_text(op, 0);
    assert!(on, "{op:04X}");
    text
}

fn thumb_off(op: u32) -> String {
    let (text, on) = thumb_text(op, 0);
    assert!(!on, "{op:04X}");
    text
}

fn interpreted(op: u32) -> String {
    format!("    INTERPRET(0x00100000u, 0x{op:08X}u);\n")
}

#[test]
fn data_processing_writes_its_register() {
    // mov r0, r1
    assert_eq!(
        arm_on(0xE1A0_0001),
        "    {\n    uint32_t m = ctx->r[1];\n    uint32_t b = m;\n    uint32_t r = b;\n    ctx->r[0] = r;\n    }\n"
    );
    // adds r2, r3, r4 lsl 5
    assert_eq!(
        arm_on(0xE093_2284),
        "    {\n    uint32_t m = ctx->r[4];\n    uint32_t b = m << 5;\n    uint32_t a = ctx->r[3];\n    uint32_t r = a + b;\n    ctx->n = r >> 31; ctx->z = r == 0;\n    ctx->c = r < a; ctx->v = ((a ^ r) & (b ^ r)) >> 31;\n    ctx->r[2] = r;\n    }\n"
    );
    // movs r0, 0xFF000000, whose carry is its top bit
    assert_eq!(
        arm_on(0xE3B0_04FF),
        "    {\n    uint32_t b = 0xFF000000u;\n    uint8_t sc = 1;\n    uint32_t r = b;\n    ctx->n = r >> 31; ctx->z = r == 0;\n    ctx->c = sc;\n    ctx->r[0] = r;\n    }\n"
    );
    // sbc r0, r1, r2 lsr r3
    assert_eq!(
        arm_on(0xE0C1_0332),
        "    {\n    uint8_t sc = ctx->c;\n    uint32_t b = shift_lsr(ctx->r[2], ctx->r[3], &sc);\n    uint32_t a = ctx->r[1];\n    uint8_t ci = ctx->c;\n    uint32_t r = a - b - !ci;\n    ctx->r[0] = r;\n    }\n"
    );
    // cmp r0, 5 writes none
    assert_eq!(
        arm_on(0xE350_0005),
        "    {\n    uint32_t b = 0x00000005u;\n    uint32_t a = ctx->r[0];\n    uint32_t r = a - b;\n    ctx->n = r >> 31; ctx->z = r == 0;\n    ctx->c = a >= b; ctx->v = ((a ^ b) & (a ^ r)) >> 31;\n    }\n"
    );
}

#[test]
fn r15_reads_as_the_pipeline_gives_it() {
    // add r0, pc, r1 reads the address plus 8
    assert!(arm_on(0xE08F_0001).contains("    uint32_t a = 0x00100008u;\n"));
    // with a register shift it is the address plus 12
    assert!(arm_on(0xE08F_0211).contains("    uint32_t a = 0x0010000Cu;\n"));
}

#[test]
fn writing_pc_leaves() {
    // mov pc, lr
    assert!(arm_off(0xE1A0_F00E).contains("    ctx->r[15] = r & ~3u; return;\n"));
    // add pc, pc, r0 lsl 2
    assert!(arm_off(0xE08F_F100).contains("    target = r & ~3u; goto dispatch;\n"));
    // movs pc, lr is an exception return
    assert_eq!(arm_on(0xE1B0_F00E), interpreted(0xE1B0_F00E));
}

#[test]
fn conditions_wrap_their_instruction() {
    // moveq r0, 0
    assert_eq!(
        arm_on(0x03A0_0000),
        "    if (C_EQ) {\n    {\n    uint32_t b = 0x00000000u;\n    uint32_t r = b;\n    ctx->r[0] = r;\n    }\n    }\n"
    );
    // bxle lr can be skipped
    assert_eq!(arm_on(0xD12F_FF1E), "    if (C_LE) {\n    RETURN_TO(ctx->r[14]);\n    }\n");
}

#[test]
fn loads_and_stores() {
    // ldr r0, [r1, 8]!
    assert_eq!(
        arm_on(0xE5B1_0008),
        "    { uint32_t base = ctx->r[1], oa = base + 0x8u;\n    uint32_t v = mem_read32(ctx, oa);\n    ctx->r[1] = oa;\n    ctx->r[0] = v; }\n"
    );
    // strb r2, [r3], -r4 ror 3
    assert_eq!(
        arm_on(0xE643_21E4),
        "    { uint32_t base = ctx->r[3], oa = base - ror32(ctx->r[4], 3);\n    mem_write8(ctx, base, (uint8_t)ctx->r[2]);\n    ctx->r[3] = oa;\n    }\n"
    );
    // ldr pc, [sp], 4 and ldr pc, [r3]
    assert!(arm_off(0xE49D_F004).ends_with("    RETURN_TO(v); }\n"));
    assert!(arm_off(0xE593_F000).ends_with("    JUMP_TO(v); }\n"));
    // ldrsb r0, [r1, 0x12]
    assert_eq!(
        arm_on(0xE1D1_01D2),
        "    { uint32_t base = ctx->r[1], oa = base + 0x12u;\n    uint32_t v = (uint32_t)(int32_t)(int8_t)mem_read8(ctx, oa); ctx->r[0] = v; }\n"
    );
    // ldrd r0, [r2]
    assert_eq!(
        arm_on(0xE1C2_00D0),
        "    { uint32_t base = ctx->r[2], oa = base + 0x0u;\n    uint32_t lo = mem_read32(ctx, oa), hi = mem_read32(ctx, oa + 4); ctx->r[0] = lo; ctx->r[1] = hi; }\n"
    );
    // an odd register has no pair
    assert_eq!(arm_on(0xE1C2_10D0), interpreted(0xE1C2_10D0));
}

#[test]
fn block_transfers() {
    // pop r4, pc
    assert_eq!(
        arm_off(0xE8BD_8010),
        "    { uint32_t base = ctx->r[13], p = base, fin = base + 8;\n    ctx->r[13] = fin;\n    ctx->r[4] = mem_read32(ctx, p); p += 4;\n    RETURN_TO(mem_read32(ctx, p)); }\n"
    );
    // push r0, sp, lr stores the new sp
    assert_eq!(
        arm_on(0xE92D_6001),
        "    { uint32_t base = ctx->r[13], p = base - 12, fin = base - 12;\n    mem_write32(ctx, p, ctx->r[0]); p += 4;\n    mem_write32(ctx, p, fin); p += 4;\n    mem_write32(ctx, p, ctx->r[14]); p += 4;\n    ctx->r[13] = fin;\n    (void)p; (void)fin; }\n"
    );
    // an empty list
    assert_eq!(arm_on(0xE8BD_0000), interpreted(0xE8BD_0000));
}

#[test]
fn multiplies() {
    // muls r0, r1, r2
    assert_eq!(
        arm_on(0xE010_0291),
        "    { uint32_t r = ctx->r[1] * ctx->r[2]; ctx->r[0] = r; ctx->n = r >> 31; ctx->z = r == 0; }\n"
    );
    // smlal r0, r1, r2, r3
    assert_eq!(
        arm_on(0xE0E1_0392),
        "    { uint64_t r = (uint64_t)((int64_t)(int32_t)ctx->r[2] * (int32_t)ctx->r[3]) + ((uint64_t)ctx->r[1] << 32 | ctx->r[0]); ctx->r[0] = (uint32_t)r; ctx->r[1] = (uint32_t)(r >> 32); }\n"
    );
    // smulbt r0, r1, r2
    assert_eq!(
        arm_on(0xE160_02C1),
        "    ctx->r[0] = (uint32_t)(HALF(ctx->r[1], 0) * HALF(ctx->r[2], 1));\n"
    );
    // qdadd r0, r1, r2
    assert_eq!(
        arm_on(0xE142_0051),
        "    ctx->r[0] = saturate(ctx, (int64_t)(int32_t)ctx->r[1] + (int32_t)saturate(ctx, (int64_t)(int32_t)ctx->r[2] * 2));\n"
    );
    // smmlar r0, r1, r2, r3
    assert_eq!(
        arm_on(0xE750_3231),
        "    ctx->r[0] = (uint32_t)((((uint64_t)ctx->r[3] << 32) + (uint64_t)((int64_t)(int32_t)ctx->r[1] * (int32_t)ctx->r[2]) + 0x80000000u) >> 32);\n"
    );
}

#[test]
fn media() {
    // uadd8 r0, r1, r2
    assert_eq!(arm_on(0xE651_0F92), "    ctx->r[0] = media_parallel(ctx, 5, 4, ctx->r[1], ctx->r[2]);\n");
    // uxtb r0, r1 ror 8
    assert_eq!(arm_on(0xE6EF_0471), "    ctx->r[0] = (ror32(ctx->r[1], 8) & 0xFF);\n");
    // sxtah r0, r1, r2
    assert_eq!(arm_on(0xE6B1_0072), "    ctx->r[0] = ctx->r[1] + (uint32_t)(int32_t)(int16_t)ctx->r[2];\n");
    // rev r0, r1
    assert_eq!(arm_on(0xE6BF_0F31), "    ctx->r[0] = __builtin_bswap32(ctx->r[1]);\n");
    // ssat r0, 8, r1 asr 32, and usat r0, 7, r1 lsl 2
    assert_eq!(
        arm_on(0xE6A7_0051),
        "    ctx->r[0] = media_saturate(ctx, (int64_t)((int32_t)ctx->r[1] >> 31), 8, 0);\n"
    );
    assert_eq!(
        arm_on(0xE6E7_0111),
        "    ctx->r[0] = media_saturate(ctx, (int64_t)(int32_t)(ctx->r[1] << 2), 7, 1);\n"
    );
    // usad8 r0, r1, r2
    assert_eq!(arm_on(0xE780_F211), "    ctx->r[0] = media_usad8(ctx->r[1], ctx->r[2]);\n");
    // sel r0, r1, r2
    assert_eq!(arm_on(0xE681_0FB2), "    ctx->r[0] = media_select(ctx, ctx->r[1], ctx->r[2]);\n");
}

#[test]
fn exclusives_swaps_and_clz() {
    // ldrex r0, [r1]
    assert_eq!(
        arm_on(0xE191_0F9F),
        "    { uint32_t address = ctx->r[1]; ctx->exclusive = 1; ctx->exclusive_address = address; ctx->r[0] = mem_read32(ctx, address); }\n"
    );
    // strexb r0, r2, [r1]
    assert_eq!(
        arm_on(0xE1C1_0F92),
        "    { uint32_t address = ctx->r[1]; if (ctx->exclusive && ctx->exclusive_address == address) { mem_write8(ctx, address, (uint8_t)ctx->r[2]); ctx->exclusive = 0; ctx->r[0] = 0; } else ctx->r[0] = 1; }\n"
    );
    // swp r0, r2, [r1]
    assert_eq!(
        arm_on(0xE101_0092),
        "    { uint32_t address = ctx->r[1], source = ctx->r[2], old = mem_read32(ctx, address); mem_write32(ctx, address, source); ctx->r[0] = old; }\n"
    );
    // clz r0, r1
    assert_eq!(arm_on(0xE16F_0F11), "    { uint32_t m = ctx->r[1]; ctx->r[0] = m ? __builtin_clz(m) : 32; }\n");
    // clrex and pld
    assert_eq!(arm_on(0xF57F_F01F), "    ctx->exclusive = 0;\n");
    assert_eq!(arm_on(0xF5D0_F000), "");
}

#[test]
fn system_instructions() {
    // svc 0x32
    assert_eq!(arm_off(0xEF00_0032), "    SVC(0x00100004u, 0x32u);\n");
    // mrc p15, 0, r0, c13, c0, 3
    assert_eq!(arm_on(0xEE1D_0F70), "    ctx->r[0] = ctx->tls;\n");
    // a data memory barrier, which is mcr p15, 0, r0, c7, c10, 5
    assert_eq!(arm_on(0xEE07_0FBA), "");
    // mrs and msr
    assert_eq!(arm_on(0xE10F_0000), interpreted(0xE10F_0000));
    assert_eq!(arm_on(0xE328_F000), interpreted(0xE328_F000));
    // nop
    assert_eq!(arm_on(0xE320_F000), "");
}

#[test]
fn branches_go_to_labels_functions_or_the_host() {
    let labels = BTreeSet::from([A + 0x10]);
    let functions = BTreeSet::from([A + 0x20, A + 0x31]);
    let scope = Scope { labels: &labels, functions: &functions, module: None };
    let text = |target, thumb| {
        let mut out = String::new();
        assert!(!jump(&mut out, &scope, target, thumb));
        out
    };
    assert_eq!(text(A + 0x10, false), "    goto L_00100010;\n");
    assert_eq!(text(A + 0x20, false), "    ctx->r[15] = 0x00100020u; CALL(f_00100020); return;\n");
    assert_eq!(text(A + 0x30, true), "    ctx->r[15] = 0x00100030u; CALL(t_00100030); return;\n");
    assert_eq!(text(A + 0x30, false), "    target = 0x00100030u; goto dispatch;\n");
}

#[test]
fn calls_come_back() {
    let labels = BTreeSet::new();
    let functions = BTreeSet::from([A + 0x20]);
    let scope = Scope { labels: &labels, functions: &functions, module: None };
    let text = |link, target, thumb| {
        let mut out = String::new();
        assert!(call(&mut out, &scope, link, target, thumb));
        out
    };
    assert_eq!(
        text(A + 4, A + 0x20, false),
        "    ctx->r[14] = 0x00100004u; ctx->r[15] = 0x00100020u;\n    CALL(f_00100020);\n    RETURNED(0x00100004u);\n"
    );
    assert_eq!(
        text(A + 5, A + 0x20, false),
        "    ctx->r[14] = 0x00100005u; ctx->r[15] = 0x00100020u;\n    ctx->thumb = 0;\n    CALL(f_00100020);\n    RETURNED_T(0x00100004u);\n"
    );
    assert_eq!(
        text(A + 4, A + 0x40, true),
        "    ctx->r[14] = 0x00100004u; ctx->r[15] = 0x00100040u;\n    ctx->thumb = 1;\n    CALL(recomp_call);\n    RETURNED(0x00100004u);\n"
    );
}

#[test]
fn module_code_works_wherever_it_is_loaded() {
    let labels = BTreeSet::new();
    let functions = BTreeSet::from([0x200]);
    let scope = Scope { labels: &labels, functions: &functions, module: Some(7) };
    let mut out = String::new();
    // bl 0x200
    assert!(arm::lower(&mut out, &scope, 0x1F0, 0xEB00_0002));
    assert_eq!(
        out,
        "    ctx->r[14] = (module + 0x000001F4u); ctx->r[15] = (module + 0x00000200u);\n    CALL(m007_f_00000200);\n    RETURNED((module + 0x000001F4u));\n"
    );
}

#[test]
fn arm_branches_agree_with_their_flow() {
    // b and bl to 0x100010
    assert_eq!(arm_off(0xEA00_0002), "    target = 0x00100010u; goto dispatch;\n");
    assert!(arm_on(0xEB00_0002).contains("ctx->r[15] = 0x00100010u;"));
    // blx to 0x10000A
    assert!(arm_on(0xFB00_0000).contains("ctx->r[15] = 0x0010000Au;\n    ctx->thumb = 1;\n"));
    // blx r3
    assert_eq!(
        arm_on(0xE12F_FF33),
        "    { uint32_t v = ctx->r[3]; ctx->r[14] = 0x00100004u; ctx->thumb = v & 1; ctx->r[15] = v & (ctx->thumb ? ~1u : ~3u); }\n    CALL(recomp_call);\n    RETURNED(0x00100004u);\n"
    );
    assert_eq!(arm_off(0xE12F_FF13), "    JUMP_TO(ctx->r[3]);\n");
}

#[test]
fn thumb_arithmetic() {
    // lsrs r0, r1, 0
    assert_eq!(
        thumb_on(0x0808),
        "    { uint32_t m = ctx->r[1], r = 0; ctx->c = m >> 31; ctx->r[0] = r; ctx->n = r >> 31; ctx->z = r == 0; }\n"
    );
    // adds r0, r1, 3
    assert_eq!(
        thumb_on(0x1CC8),
        "    { uint32_t a = ctx->r[1], b = 3u, r = a + b; ctx->r[0] = r; ctx->n = r >> 31; ctx->z = r == 0; ctx->c = r < a; ctx->v = ((a ^ r) & (b ^ r)) >> 31; }\n"
    );
    // movs r0, 0
    assert_eq!(thumb_on(0x2000), "    ctx->r[0] = 0u; ctx->n = 0; ctx->z = 1;\n");
    // negs r0, r1
    assert_eq!(
        thumb_on(0x4248),
        "    { uint32_t a = ctx->r[0], b = ctx->r[1], r; r = 0 - b; ctx->r[0] = r; ctx->n = r >> 31; ctx->z = r == 0; ctx->c = b == 0; ctx->v = (b & r) >> 31; }\n"
    );
    // mov r8, r0
    assert_eq!(thumb_on(0x4680), "    ctx->r[8] = ctx->r[0];\n");
    // sub sp, 0x10
    assert_eq!(thumb_on(0xB084), "    ctx->r[13] = ctx->r[13] - 0x10u;\n");
    // uxtb r0, r1
    assert_eq!(thumb_on(0xB2C8), "    ctx->r[0] = (ctx->r[1] & 0xFF);\n");
    // rev r0, r1
    assert_eq!(thumb_on(0xBA08), "    ctx->r[0] = __builtin_bswap32(ctx->r[1]);\n");
}

#[test]
fn thumb_memory() {
    // ldr r0, [pc, 4]
    assert_eq!(thumb_on(0x4801), "    ctx->r[0] = mem_read32(ctx, 0x00100008u);\n");
    // strh r0, [r1, 2]
    assert_eq!(thumb_on(0x8048), "    mem_write16(ctx, ctx->r[1] + 0x2u, (uint16_t)ctx->r[0]);\n");
    // ldr r1, [sp, 8]
    assert_eq!(thumb_on(0x9902), "    ctx->r[1] = mem_read32(ctx, ctx->r[13] + 0x8u);\n");
    // ldrsh r0, [r1, r2]
    assert_eq!(
        thumb_on(0x5E88),
        "    ctx->r[0] = (uint32_t)(int32_t)(int16_t)mem_read16(ctx, ctx->r[1] + ctx->r[2]);\n"
    );
    // ldrb r0, [r1, 5]
    assert_eq!(thumb_on(0x7948), "    ctx->r[0] = mem_read8(ctx, ctx->r[1] + 0x5u);\n");
    // add r0, pc, 8
    assert_eq!(thumb_on(0xA002), "    ctx->r[0] = 0x0010000Cu;\n");
    // push r4, lr and pop r4, pc
    assert_eq!(
        thumb_on(0xB510),
        "    { uint32_t start = ctx->r[13] - 8u, p = start;\n    mem_write32(ctx, p, ctx->r[4]); p += 4;\n    mem_write32(ctx, p, ctx->r[14]);\n    ctx->r[13] = start; (void)p; }\n"
    );
    assert_eq!(
        thumb_off(0xBD10),
        "    { uint32_t p = ctx->r[13];\n    ctx->r[4] = mem_read32(ctx, p); p += 4;\n    ctx->r[13] += 8u;\n    RETURN_TO(mem_read32(ctx, p)); }\n"
    );
    // ldmia r0, r0 r1 keeps what it loaded
    assert_eq!(
        thumb_on(0xC803),
        "    { uint32_t p = ctx->r[0], fin = p + 8u;\n    ctx->r[0] = mem_read32(ctx, p); p += 4;\n    ctx->r[1] = mem_read32(ctx, p); p += 4;\n    (void)fin; }\n"
    );
    // an empty list moves the base
    assert_eq!(thumb_on(0xC000), "    ctx->r[0] += 0x40u;\n");
}

#[test]
fn thumb_flow() {
    // beq to 0x100006
    assert_eq!(thumb_on(0xD001), "    if (C_EQ) {\n    target = 0x00100006u; goto dispatch;\n    }\n");
    // b .
    assert_eq!(thumb_off(0xE7FE), "    target = 0x00100000u; goto dispatch;\n");
    // svc 1
    assert_eq!(thumb_off(0xDF01), "    SVC(0x00100002u, 0x1u);\n");
    // bl and blx
    assert!(thumb_text(0xF000, 0xFFFE).0.contains("ctx->r[14] = 0x00100005u; ctx->r[15] = 0x00101000u;\n    CALL"));
    assert!(thumb_text(0xF000, 0xE802).0.contains("ctx->r[15] = 0x00100008u;\n    ctx->thumb = 0;\n"));
    // half of one
    assert_eq!(thumb_on(0xF000), "    INTERPRET(0x00100000u, 0xF000u);\n");
    // bx lr, bx r3, mov pc, lr and add pc, r0
    assert_eq!(thumb_off(0x4770), "    RETURN_TO(ctx->r[14]);\n");
    assert_eq!(thumb_off(0x4718), "    JUMP_TO(ctx->r[3]);\n");
    assert_eq!(thumb_off(0x46F7), "    ctx->r[15] = ctx->r[14] & ~1u; return;\n");
    assert_eq!(thumb_off(0x4487), "    target = (0x00100004u + ctx->r[0]) & ~1u; goto dispatch;\n");
    // blx r3
    assert!(thumb_on(0x4798).contains("ctx->r[14] = 0x00100002u | 1;"));
}

#[test]
fn vfp_arithmetic() {
    // vadd.f32 s0, s1, s2
    assert_eq!(
        arm_on(0xEE30_0A81),
        "    { float a = vfp_s(ctx, 1), b = vfp_s(ctx, 2), acc = vfp_s(ctx, 0); vfp_set_s(ctx, 0, a + b); }\n"
    );
    // vmul.f32 s8, s9, s10 may be a vector
    assert_eq!(
        arm_on(0xEE24_4A85),
        "    if (UNLIKELY(*ctx->fpscr & FPSCR_LEN)) vfp_vector(ctx, 4, 0, 8, 9, 10); else { float a = vfp_s(ctx, 9), b = vfp_s(ctx, 10), acc = vfp_s(ctx, 8); vfp_set_s(ctx, 8, a * b); }\n"
    );
    // vdiv.f64 d0, d1, d2
    assert_eq!(
        arm_on(0xEE81_0B02),
        "    { double a = vfp_d(ctx, 1), b = vfp_d(ctx, 2), acc = vfp_d(ctx, 0); vfp_set_d(ctx, 0, a / b); }\n"
    );
    // vneg.f32 s0, s1
    assert_eq!(arm_on(0xEEB1_0A60), "    { ctx->vfp[0] = ctx->vfp[1] ^ 0x80000000u; }\n");
    // vsqrt.f64 d0, d1
    assert_eq!(arm_on(0xEEB1_0BC1), "    { double v = vfp_d(ctx, 1); vfp_set_d(ctx, 0, sqrt(v)); }\n");
    // vcmp.f32 s0, 0
    assert_eq!(arm_on(0xEEB5_0A40), "    vfp_compare(ctx, vfp_s(ctx, 0), 0.0);\n");
    // vcvt.f64.f32 d0, s1
    assert_eq!(arm_on(0xEEB7_0AE0), "    vfp_set_d(ctx, 0, (double)vfp_s(ctx, 1));\n");
    // vcvt.f32.s32 s0, s1
    assert_eq!(arm_on(0xEEB8_0AE0), "    vfp_set_s(ctx, 0, (float)(double)(int32_t)ctx->vfp[1]);\n");
    // vcvt.s32.f32 s0, s1, and with the rounding mode of fpscr
    assert_eq!(arm_on(0xEEBD_0AE0), "    ctx->vfp[0] = vfp_to_s32((double)vfp_s(ctx, 1));\n");
    assert_eq!(arm_on(0xEEBD_0A60), interpreted(0xEEBD_0A60));
}

#[test]
fn vfp_transfers() {
    // vmrs apsr_nzcv, fpscr
    assert_eq!(
        arm_on(0xEEF1_FA10),
        "    { uint32_t f = *ctx->fpscr; ctx->n = f >> 31; ctx->z = (f >> 30) & 1; ctx->c = (f >> 29) & 1; ctx->v = (f >> 28) & 1; }\n"
    );
    // vmsr fpscr, r0
    assert_eq!(arm_on(0xEEE1_0A10), "    *ctx->fpscr = ctx->r[0];\n");
    // vmov s1, r2
    assert_eq!(arm_on(0xEE00_2A90), "    ctx->vfp[1] = ctx->r[2];\n");
    // vmov r0, r1, d2
    assert_eq!(arm_on(0xEC51_0B12), "    ctx->r[0] = ctx->vfp[4]; ctx->r[1] = ctx->vfp[5];\n");
    // vldr d1, [pc, 8]
    assert_eq!(
        arm_on(0xED9F_1B02),
        "    { uint32_t base = 0x00100008u, p = base + 0x8u;\n    ctx->vfp[2] = mem_read32(ctx, p);\n    ctx->vfp[3] = mem_read32(ctx, p + 4);\n    p += 8;\n    (void)p; }\n"
    );
    // vpush s16, s17
    assert_eq!(
        arm_on(0xED2D_8A02),
        "    { uint32_t base = ctx->r[13], p = base - 0x8u;\n    mem_write32(ctx, p, ctx->vfp[16]);\n    p += 4;\n    mem_write32(ctx, p, ctx->vfp[17]);\n    p += 4;\n    ctx->r[13] = base - 0x8u;\n    (void)p; }\n"
    );
    // another coprocessor
    let labels = BTreeSet::new();
    let functions = BTreeSet::new();
    let scope = Scope { labels: &labels, functions: &functions, module: None };
    let mut out = String::new();
    assert!(vfp::load_store(&mut out, &scope, A, 0xED9F_1C02));
    assert_eq!(out, interpreted(0xED9F_1C02));
}

#[test]
fn functions_are_keyed_by_their_state() {
    assert_eq!(key(A, false), A);
    assert_eq!(key(A, true), A + 1);
    let mut function =
        Function { source: Source::Call, mode: Mode::Arm, instructions: vec![A], labels: BTreeSet::from([A]) };
    assert!(recompiles(A, &function));
    function.labels.clear();
    assert!(!recompiles(A, &function));
}

#[test]
fn a_condition_puts_the_same_code_under_a_test() {
    // mov, add with flags, ldr, str, push, mul, smmul, vadd, b, bl and svc
    let ops = [
        0xE1A0_0001, 0xE090_0001, 0xE591_0004, 0xE581_0004, 0xE92D_4010, 0xE000_0291, 0xE750_F211, 0xEE30_0A81,
        0xEA00_0000, 0xEB00_0000, 0xEF00_0001,
    ];
    let names = [
        "C_EQ", "C_NE", "C_CS", "C_CC", "C_MI", "C_PL", "C_VS", "C_VC", "C_HI", "C_LS", "C_GE", "C_LT", "C_GT", "C_LE",
    ];
    for op in ops {
        let plain = arm_text(op).0;
        for (condition, name) in names.iter().enumerate() {
            let other = op & 0x0FFF_FFFF | (condition as u32) << 28;
            // what goes through the interpreter hands it its own word
            let plain = plain.replace(&format!("0x{op:08X}u"), &format!("0x{other:08X}u"));
            assert_eq!(arm_on(other), format!("    if ({name}) {{\n{plain}    }}\n"));
        }
    }
}

#[test]
fn code_carries_on_where_its_flow_does() {
    // smmul, cmp, ldr of a literal, strb, mrs, a bkpt and pld
    for op in [0xE750_F211, 0xE350_0005, 0xE59F_0004, 0xE5C1_0000, 0xE10F_0000, 0xE120_0070, 0xF5D1_F000] {
        arm_on(op);
    }
    // cmp pc, r0, ldr of a literal, add r0, sp and pop without pc
    for op in [0x4587, 0x4801, 0xA801, 0xBC10] {
        thumb_on(op);
    }
}
