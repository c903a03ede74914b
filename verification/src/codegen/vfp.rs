//! lowering VFPv2 to C, following an interpreter which computes singles
//! as f32 and doubles as f64, rounding once, and flushes results to zero
//! when fpscr asks.

use crate::arm;
use crate::codegen::{register, Code, Names, Scope};
use crate::text;
use crate::text::{
    decimal, emit0, emit1, emit2, emit3, emit4, emit6, form1, form2, form5, hexadecimal, word,
};
use vstd::prelude::*;

verus! {

/// an instruction left to the interpreter.
pub open spec fn interpret_code(out: Seq<char>, scope: Names, a: u32, op: u32) -> Code {
    Code {
        text: text::emitted(
            out,
            "    INTERPRET({}, 0x{}u);"@,
            seq![scope.at(a), text::hex_wide(op as nat, 8)],
        ),
        on: true,
    }
}

pub fn interpret(out: &mut String, scope: &Scope, a: u32, op: u32) -> (on: bool)
    ensures
        (Code { text: final(out)@, on }) == interpret_code(old(out)@, scope@, a, op),
{
    emit2(out, "    INTERPRET({}, 0x{}u);", scope.at(a).as_str(), word(op).as_str());
    true
}

/// the single that a field and its extra low bit name.
pub open spec fn single(field: u32, extra: bool) -> u32 {
    ((field << 1) | if extra {
        1u32
    } else {
        0
    }) & 31
}

/// the double that a field and its extra high bit name.
pub open spec fn double(field: u32, extra: bool) -> u32 {
    (if extra {
        1u32
    } else {
        0
    } << 4) | field
}

proof fn lemma_registers(field: u32, op: u32)
    by (bit_vector)
    ensures
        ((field << 1) | 1) & 31 <= 31,
        ((field << 1) | 0) & 31 <= 31,
        field <= 15 ==> (1u32 << 4) | field <= 31,
        field <= 15 ==> (0u32 << 4) | field <= 31,
        (op >> 12) & 0xF <= 15,
        (op >> 16) & 0xF <= 15,
        op & 0xF <= 15,
        op & 0xFF <= 255,
{
}

fn sreg(field: u32, extra: bool) -> (register: u32)
    ensures
        register == single(field, extra),
        register <= 31,
{
    proof {
        lemma_registers(field, 0);
    }
    ((field << 1) | if extra {
        1u32
    } else {
        0
    }) & 31
}

fn dreg(field: u32, extra: bool) -> (register: u32)
    requires
        field <= 15,
    ensures
        register == double(field, extra),
        register <= 31,
{
    proof {
        lemma_registers(field, 0);
    }
    (if extra {
        1u32
    } else {
        0
    } << 4) | field
}

/// a register of either size as C, doubles taking the two singles at 2N.
pub open spec fn get_text(double: bool, register: u32) -> Seq<char> {
    if double {
        text::fill("vfp_d(ctx, {})"@, seq![text::dec((register & 15) as nat)])
    } else {
        text::fill("vfp_s(ctx, {})"@, seq![text::dec(register as nat)])
    }
}

/// a write to a register of either size as C.
pub open spec fn set_text(double: bool, register: u32, value: Seq<char>) -> Seq<char> {
    if double {
        text::fill("vfp_set_d(ctx, {}, {});"@, seq![text::dec((register & 15) as nat), value])
    } else {
        text::fill("vfp_set_s(ctx, {}, {});"@, seq![text::dec(register as nat), value])
    }
}

fn get(double: bool, register: u32) -> (text: String)
    ensures
        text@ == get_text(double, register),
{
    if double {
        form1("vfp_d(ctx, {})", decimal(register & 15).as_str())
    } else {
        form1("vfp_s(ctx, {})", decimal(register).as_str())
    }
}

fn set(double: bool, register: u32, value: &str) -> (text: String)
    ensures
        text@ == set_text(double, register, value@),
{
    if double {
        form2("vfp_set_d(ctx, {}, {});", decimal(register & 15).as_str(), value)
    } else {
        form2("vfp_set_s(ctx, {}, {});", decimal(register).as_str(), value)
    }
}

/// body, or when fpscr has the instruction working on a short vector, which
/// only a destination past the first bank can, the loop over it. operation
/// numbers the arithmetic the way vfp_apply does.
pub open spec fn scalar_code(
    out: Seq<char>,
    double: bool,
    operation: u32,
    d: u32,
    n: u32,
    m: u32,
    body: Seq<char>,
) -> Code {
    let bank = if double {
        4u32
    } else {
        8
    };
    let kind = if double {
        "1"@
    } else {
        "0"@
    };
    Code {
        text: if d < bank {
            text::emitted(out, "    { {} }"@, seq![body])
        } else {
            text::emitted(
                out,
                "    if (UNLIKELY(*ctx->fpscr & FPSCR_LEN)) vfp_vector(ctx, {}, {}, {}, {}, {}); else { {} }"@,
                seq![
                    text::dec(operation as nat),
                    kind,
                    text::dec(d as nat),
                    text::dec(n as nat),
                    text::dec(m as nat),
                    body,
                ],
            )
        },
        on: true,
    }
}

fn scalar(out: &mut String, double: bool, operation: u32, d: u32, n: u32, m: u32, body: &str) -> (on:
    bool)
    ensures
        (Code { text: final(out)@, on }) == scalar_code(
            old(out)@,
            double,
            operation,
            d,
            n,
            m,
            body@,
        ),
{
    let bank: u32 = if double {
        4
    } else {
        8
    };
    let kind = if double {
        "1"
    } else {
        "0"
    };
    if d < bank {
        emit1(out, "    { {} }", body);
    } else {
        emit6(
            out,
            "    if (UNLIKELY(*ctx->fpscr & FPSCR_LEN)) vfp_vector(ctx, {}, {}, {}, {}, {}); else { {} }",
            decimal(operation).as_str(),
            kind,
            decimal(d).as_str(),
            decimal(n).as_str(),
            decimal(m).as_str(),
            body,
        );
    }
    true
}

/// the coprocessor an instruction is for.
pub open spec fn coprocessor(op: u32) -> u32 {
    (op >> 8) & 0xF
}

/// the register of the wanted size that a field and its extra bit name.
pub open spec fn operand(wide: bool, field: u32, extra: bool) -> u32 {
    if wide {
        double(field, extra)
    } else {
        single(field, extra)
    }
}

/// the number and the C of the arithmetic that op stands for.
pub open spec fn arithmetic(op: u32) -> Option<(u32, Seq<char>)> {
    let kind = (op >> 20) & 0b1011;
    let negate = arm::bit(op, 6);
    if kind == 0b0000 {
        if negate {
            Some((1u32, "acc - a * b"@))
        } else {
            Some((0u32, "acc + a * b"@))
        }
    } else if kind == 0b0001 {
        if negate {
            Some((3u32, "-acc - a * b"@))
        } else {
            Some((2u32, "-acc + a * b"@))
        }
    } else if kind == 0b0010 {
        if negate {
            Some((5u32, "-(a * b)"@))
        } else {
            Some((4u32, "a * b"@))
        }
    } else if kind == 0b0011 {
        if negate {
            Some((7u32, "a - b"@))
        } else {
            Some((6u32, "a + b"@))
        }
    } else if kind == 0b1000 && !negate {
        Some((8u32, "a / b"@))
    } else {
        None
    }
}

fn find_arithmetic(op: u32) -> (found: Option<(u32, &'static str)>)
    ensures
        found is Some <==> arithmetic(op) is Some,
        found matches Some((number, expression)) ==> {
            &&& number == (arithmetic(op)->0).0
            &&& expression@ == (arithmetic(op)->0).1
        },
{
    let kind = (op >> 20) & 0b1011;
    let negate = arm::bit_set(op, 6);
    if kind == 0b0000 {
        if negate {
            Some((1, "acc - a * b"))
        } else {
            Some((0, "acc + a * b"))
        }
    } else if kind == 0b0001 {
        if negate {
            Some((3, "-acc - a * b"))
        } else {
            Some((2, "-acc + a * b"))
        }
    } else if kind == 0b0010 {
        if negate {
            Some((5, "-(a * b)"))
        } else {
            Some((4, "a * b"))
        }
    } else if kind == 0b0011 {
        if negate {
            Some((7, "a - b"))
        } else {
            Some((6, "a + b"))
        }
    } else if kind == 0b1000 && !negate {
        Some((8, "a / b"))
    } else {
        None
    }
}

/// the cdp space of coprocessors 10 and 11, the arithmetic, the unary
/// operations, comparisons and conversions.
pub open spec fn data_processing_code(out: Seq<char>, scope: Names, a: u32, op: u32) -> Code {
    let wide = coprocessor(op) == 11;
    let rd = operand(wide, (op >> 12) & 0xF, arm::bit(op, 22));
    let rn = operand(wide, (op >> 16) & 0xF, arm::bit(op, 7));
    let rm = operand(wide, op & 0xF, arm::bit(op, 5));
    if coprocessor(op) != 10 && coprocessor(op) != 11 {
        interpret_code(out, scope, a, op)
    } else if (op >> 20) & 0b1011 == 0b1011 && arm::bit(op, 6) {
        extension_code(out, scope, a, op, wide, rd, rm)
    } else {
        match arithmetic(op) {
            None => interpret_code(out, scope, a, op),
            Some((operation, expression)) => {
                let kind = if wide {
                    "double"@
                } else {
                    "float"@
                };
                let body = text::fill(
                    "{} a = {}, b = {}, acc = {}; {}"@,
                    seq![
                        kind,
                        get_text(wide, rn),
                        get_text(wide, rm),
                        get_text(wide, rd),
                        set_text(wide, rd, expression),
                    ],
                );
                scalar_code(out, wide, operation, rd, rn, rm, body)
            },
        }
    }
}

pub fn data_processing(out: &mut String, scope: &Scope, a: u32, op: u32) -> (on: bool)
    ensures
        (Code { text: final(out)@, on }) == data_processing_code(old(out)@, scope@, a, op),
{
    proof {
        lemma_registers(0, op);
    }
    let coprocessor = (op >> 8) & 0xF;
    if coprocessor != 10 && coprocessor != 11 {
        return interpret(out, scope, a, op);
    }
    let wide = coprocessor == 11;
    let (vd, vn, vm) = ((op >> 12) & 0xF, (op >> 16) & 0xF, op & 0xF);
    let (d_bit, n_bit, m_bit) = (arm::bit_set(op, 22), arm::bit_set(op, 7), arm::bit_set(op, 5));
    let (rd, rn, rm) = if wide {
        (dreg(vd, d_bit), dreg(vn, n_bit), dreg(vm, m_bit))
    } else {
        (sreg(vd, d_bit), sreg(vn, n_bit), sreg(vm, m_bit))
    };
    if (op >> 20) & 0b1011 == 0b1011 && arm::bit_set(op, 6) {
        return extension(out, scope, a, op, wide, rd, rm);
    }
    // a vector runs its operand m as a scalar when m is in the first bank,
    // which only matters to the interpreter
    match find_arithmetic(op) {
        None => interpret(out, scope, a, op),
        Some((operation, expression)) => {
            let kind = if wide {
                "double"
            } else {
                "float"
            };
            let body = form5(
                "{} a = {}, b = {}, acc = {}; {}",
                kind,
                get(wide, rn).as_str(),
                get(wide, rm).as_str(),
                get(wide, rd).as_str(),
                set(wide, rd, expression).as_str(),
            );
            scalar(out, wide, operation, rd, rn, rm, body.as_str())
        },
    }
}

/// the body of vmov, vabs, vneg and vsqrt, singles move their bits untouched.
pub open spec fn unary_text(wide: bool, second: bool, top: bool, rd: u32, rm: u32) -> Seq<char> {
    let d = text::dec(rd as nat);
    let m = text::dec(rm as nat);
    if wide {
        let value = if second {
            if top {
                "sqrt(v)"@
            } else {
                "-v"@
            }
        } else if top {
            "fabs(v)"@
        } else {
            "v"@
        };
        text::fill("double v = {}; {}"@, seq![get_text(true, rm), set_text(true, rd, value)])
    } else if second {
        if top {
            set_text(false, rd, text::fill("sqrtf({})"@, seq![get_text(false, rm)]))
        } else {
            text::fill("ctx->vfp[{}] = ctx->vfp[{}] ^ 0x80000000u;"@, seq![d, m])
        }
    } else if top {
        text::fill("ctx->vfp[{}] = ctx->vfp[{}] & 0x7FFFFFFFu;"@, seq![d, m])
    } else {
        text::fill("ctx->vfp[{}] = ctx->vfp[{}];"@, seq![d, m])
    }
}

fn unary(wide: bool, second: bool, top: bool, rd: u32, rm: u32) -> (text: String)
    ensures
        text@ == unary_text(wide, second, top, rd, rm),
{
    let d = decimal(rd);
    let m = decimal(rm);
    if wide {
        let value = if second {
            if top {
                "sqrt(v)"
            } else {
                "-v"
            }
        } else if top {
            "fabs(v)"
        } else {
            "v"
        };
        form2("double v = {}; {}", get(true, rm).as_str(), set(true, rd, value).as_str())
    } else if second {
        if top {
            set(false, rd, form1("sqrtf({})", get(false, rm).as_str()).as_str())
        } else {
            form2("ctx->vfp[{}] = ctx->vfp[{}] ^ 0x80000000u;", d.as_str(), m.as_str())
        }
    } else if top {
        form2("ctx->vfp[{}] = ctx->vfp[{}] & 0x7FFFFFFFu;", d.as_str(), m.as_str())
    } else {
        form2("ctx->vfp[{}] = ctx->vfp[{}];", d.as_str(), m.as_str())
    }
}

/// the number of a unary operation the way vfp_apply has it.
pub open spec fn unary_operation(second: bool, top: bool) -> u32 {
    if second {
        if top {
            12
        } else {
            11
        }
    } else if top {
        10
    } else {
        9
    }
}

/// the unary operations, comparisons and conversions.
pub open spec fn extension_code(
    out: Seq<char>,
    scope: Names,
    a: u32,
    op: u32,
    wide: bool,
    rd: u32,
    rm: u32,
) -> Code {
    let top = arm::bit(op, 7);
    let kind = (op >> 16) & 0xF;
    let vd = (op >> 12) & 0xF;
    let vm = op & 0xF;
    let d_bit = arm::bit(op, 22);
    let m_bit = arm::bit(op, 5);
    if kind == 0b0000 || kind == 0b0001 {
        let second = kind == 0b0001;
        scalar_code(
            out,
            wide,
            unary_operation(second, top),
            rd,
            rd,
            rm,
            unary_text(wide, second, top, rd, rm),
        )
    } else if kind == 0b0100 {
        // vcmp against a register or zero, singles compared as doubles
        Code {
            text: text::emitted(
                out,
                "    vfp_compare(ctx, {}, {});"@,
                seq![get_text(wide, rd), get_text(wide, rm)],
            ),
            on: true,
        }
    } else if kind == 0b0101 {
        Code {
            text: text::emitted(out, "    vfp_compare(ctx, {}, 0.0);"@, seq![get_text(wide, rd)]),
            on: true,
        }
    } else if kind == 0b0111 && top {
        // vcvt between single and double
        let set = if wide {
            set_text(
                false,
                single(vd, d_bit),
                text::fill("(float){}"@, seq![get_text(true, rm)]),
            )
        } else {
            set_text(
                true,
                double(vd, d_bit),
                text::fill("(double){}"@, seq![get_text(false, single(vm, m_bit))]),
            )
        };
        Code { text: text::emitted(out, "    {}"@, seq![set]), on: true }
    } else if kind == 0b1000 {
        // vcvt from an integer, bit 7 set for signed
        let source = seq![text::dec(single(vm, m_bit) as nat)];
        let integer = if top {
            text::fill("(double)(int32_t)ctx->vfp[{}]"@, source)
        } else {
            text::fill("(double)ctx->vfp[{}]"@, source)
        };
        let value = if wide {
            integer
        } else {
            text::fill("(float){}"@, seq![integer])
        };
        Code { text: text::emitted(out, "    {}"@, seq![set_text(wide, rd, value)]), on: true }
    } else if (kind == 0b1100 || kind == 0b1101) && top {
        // vcvt to an integer rounding toward zero, the other rounding modes
        // are rare enough for the interpreter
        let source = if wide {
            get_text(true, rm)
        } else {
            text::fill("(double){}"@, seq![get_text(false, rm)])
        };
        let convert = if kind == 0b1101 {
            "vfp_to_s32"@
        } else {
            "vfp_to_u32"@
        };
        Code {
            text: text::emitted(
                out,
                "    ctx->vfp[{}] = {}({});"@,
                seq![text::dec(single(vd, d_bit) as nat), convert, source],
            ),
            on: true,
        }
    } else {
        interpret_code(out, scope, a, op)
    }
}

fn extension(out: &mut String, scope: &Scope, a: u32, op: u32, wide: bool, rd: u32, rm: u32) -> (on:
    bool)
    ensures
        (Code { text: final(out)@, on }) == extension_code(old(out)@, scope@, a, op, wide, rd, rm),
{
    proof {
        lemma_registers(0, op);
    }
    let top = arm::bit_set(op, 7);
    let kind = (op >> 16) & 0xF;
    let vd = (op >> 12) & 0xF;
    let vm = op & 0xF;
    let d_bit = arm::bit_set(op, 22);
    let m_bit = arm::bit_set(op, 5);
    if kind == 0b0000 || kind == 0b0001 {
        let second = kind == 0b0001;
        let operation: u32 = if second {
            if top {
                12
            } else {
                11
            }
        } else if top {
            10
        } else {
            9
        };
        let body = unary(wide, second, top, rd, rm);
        return scalar(out, wide, operation, rd, rd, rm, body.as_str());
    }
    if kind == 0b0100 {
        // vcmp against a register or zero, singles compared as doubles
        emit2(
            out,
            "    vfp_compare(ctx, {}, {});",
            get(wide, rd).as_str(),
            get(wide, rm).as_str(),
        );
    } else if kind == 0b0101 {
        emit1(out, "    vfp_compare(ctx, {}, 0.0);", get(wide, rd).as_str());
    } else if kind == 0b0111 && top {
        // vcvt between single and double
        let set = if wide {
            let value = form1("(float){}", get(true, rm).as_str());
            set(false, sreg(vd, d_bit), value.as_str())
        } else {
            let value = form1("(double){}", get(false, sreg(vm, m_bit)).as_str());
            set(true, dreg(vd, d_bit), value.as_str())
        };
        emit1(out, "    {}", set.as_str());
    } else if kind == 0b1000 {
        // vcvt from an integer, bit 7 set for signed
        let source = decimal(sreg(vm, m_bit));
        let integer = if top {
            form1("(double)(int32_t)ctx->vfp[{}]", source.as_str())
        } else {
            form1("(double)ctx->vfp[{}]", source.as_str())
        };
        let value = if wide {
            integer
        } else {
            form1("(float){}", integer.as_str())
        };
        emit1(out, "    {}", set(wide, rd, value.as_str()).as_str());
    } else if (kind == 0b1100 || kind == 0b1101) && top {
        // vcvt to an integer rounding toward zero, the other rounding modes
        // are rare enough for the interpreter
        let source = if wide {
            get(true, rm)
        } else {
            form1("(double){}", get(false, rm).as_str())
        };
        let convert = if kind == 0b1101 {
            "vfp_to_s32"
        } else {
            "vfp_to_u32"
        };
        emit3(
            out,
            "    ctx->vfp[{}] = {}({});",
            decimal(sreg(vd, d_bit)).as_str(),
            convert,
            source.as_str(),
        );
    } else {
        return interpret(out, scope, a, op);
    }
    true
}

/// the mrc and mcr space of coprocessors 10 and 11, moves between core and
/// VFP registers and to and from fpscr.
pub open spec fn register_transfer_code(out: Seq<char>, scope: Names, a: u32, op: u32) -> Code {
    let ours = coprocessor(op) == 10 || coprocessor(op) == 11;
    let kind = (op >> 21) & 7;
    let load = arm::bit(op, 20);
    let rt = (op >> 12) & 0xF;
    let sn = single((op >> 16) & 0xF, arm::bit(op, 7));
    if ours && kind == 7 && (op >> 16) & 0xF == 1 {
        // vmrs and vmsr on fpscr
        Code {
            text: if !load {
                text::emitted(
                    out,
                    "    *ctx->fpscr = {};"@,
                    seq![scope.reg(rt, a.wrapping_add(8))],
                )
            } else if rt == 15 {
                text::emitted(
                    out,
                    "    { uint32_t f = *ctx->fpscr; ctx->n = f >> 31; ctx->z = (f >> 30) & 1; ctx->c = (f >> 29) & 1; ctx->v = (f >> 28) & 1; }"@,
                    Seq::empty(),
                )
            } else {
                text::emitted(
                    out,
                    "    ctx->r[{}] = *ctx->fpscr;"@,
                    seq![text::dec(rt as nat)],
                )
            },
            on: true,
        }
    } else if ours && kind == 0 && rt != 15 {
        // vmov between a core register and a single
        Code {
            text: if load {
                text::emitted(
                    out,
                    "    ctx->r[{}] = ctx->vfp[{}];"@,
                    seq![text::dec(rt as nat), text::dec(sn as nat)],
                )
            } else {
                text::emitted(
                    out,
                    "    ctx->vfp[{}] = ctx->r[{}];"@,
                    seq![text::dec(sn as nat), text::dec(rt as nat)],
                )
            },
            on: true,
        }
    } else {
        interpret_code(out, scope, a, op)
    }
}

pub fn register_transfer(out: &mut String, scope: &Scope, a: u32, op: u32) -> (on: bool)
    ensures
        (Code { text: final(out)@, on }) == register_transfer_code(old(out)@, scope@, a, op),
{
    let coprocessor = (op >> 8) & 0xF;
    let ours = coprocessor == 10 || coprocessor == 11;
    let kind = (op >> 21) & 7;
    let load = arm::bit_set(op, 20);
    let rt = (op >> 12) & 0xF;
    if ours && kind == 7 && (op >> 16) & 0xF == 1 {
        // vmrs and vmsr on fpscr
        if !load {
            emit1(out, "    *ctx->fpscr = {};", scope.reg(rt, a.wrapping_add(8)).as_str());
        } else if rt == 15 {
            emit0(
                out,
                "    { uint32_t f = *ctx->fpscr; ctx->n = f >> 31; ctx->z = (f >> 30) & 1; ctx->c = (f >> 29) & 1; ctx->v = (f >> 28) & 1; }",
            );
        } else {
            emit1(out, "    ctx->r[{}] = *ctx->fpscr;", decimal(rt).as_str());
        }
        return true;
    }
    if ours && kind == 0 && rt != 15 {
        // vmov between a core register and a single
        let sn = sreg((op >> 16) & 0xF, arm::bit_set(op, 7));
        if load {
            emit2(
                out,
                "    ctx->r[{}] = ctx->vfp[{}];",
                decimal(rt).as_str(),
                decimal(sn).as_str(),
            );
        } else {
            emit2(
                out,
                "    ctx->vfp[{}] = ctx->r[{}];",
                decimal(sn).as_str(),
                decimal(rt).as_str(),
            );
        }
        return true;
    }
    interpret(out, scope, a, op)
}

/// one word moved between memory at address and a single.
pub open spec fn word_moved(
    out: Seq<char>,
    load: bool,
    address: Seq<char>,
    register: u32,
) -> Seq<char> {
    if load {
        text::emitted(
            out,
            "    ctx->vfp[{}] = mem_read32(ctx, {});"@,
            seq![text::dec(register as nat), address],
        )
    } else {
        text::emitted(
            out,
            "    mem_write32(ctx, {}, ctx->vfp[{}]);"@,
            seq![address, text::dec(register as nat)],
        )
    }
}

fn move_word(out: &mut String, load: bool, address: &str, register: u32)
    ensures
        final(out)@ == word_moved(old(out)@, load, address@, register),
{
    if load {
        emit2(
            out,
            "    ctx->vfp[{}] = mem_read32(ctx, {});",
            decimal(register).as_str(),
            address,
        );
    } else {
        emit2(
            out,
            "    mem_write32(ctx, {}, ctx->vfp[{}]);",
            address,
            decimal(register).as_str(),
        );
    }
}

/// the first count registers from first on moved between memory and VFP.
pub open spec fn registers_moved(
    out: Seq<char>,
    wide: bool,
    load: bool,
    first: u32,
    count: nat,
) -> Seq<char>
    decreases count,
{
    if count == 0 {
        out
    } else {
        let out = registers_moved(out, wide, load, first, (count - 1) as nat);
        let register = (first + count - 1) as u32;
        if wide {
            let out = word_moved(out, load, "p"@, ((register * 2) as u32) & 31);
            let out = word_moved(out, load, "p + 4"@, ((register * 2 + 1) as u32) & 31);
            text::emitted(out, "    p += 8;"@, Seq::empty())
        } else {
            let out = word_moved(out, load, "p"@, register & 31);
            text::emitted(out, "    p += 4;"@, Seq::empty())
        }
    }
}

/// how many registers a load or store moves.
pub open spec fn moved_count(wide: bool, one: bool, op: u32) -> u32 {
    let listed = if wide {
        (op & 0xFF) / 2
    } else {
        op & 0xFF
    };
    if one || listed == 0 {
        1
    } else {
        listed
    }
}

/// the ldc and stc space of coprocessors 10 and 11, vldr, vstr, vldm and
/// vstm, and the moves between two core registers and a double.
pub open spec fn load_store_code(out: Seq<char>, scope: Names, a: u32, op: u32) -> Code {
    let wide = coprocessor(op) == 11;
    let load = arm::bit(op, 20);
    let up = arm::bit(op, 23);
    let writeback = arm::bit(op, 21);
    let one = arm::bit(op, 24) && !writeback;
    let rn = (op >> 16) & 0xF;
    let offset = text::hex(((op & 0xFF) * 4) as nat);
    let first = operand(wide, (op >> 12) & 0xF, arm::bit(op, 22));
    if coprocessor(op) != 10 && coprocessor(op) != 11 {
        interpret_code(out, scope, a, op)
    } else if (op >> 21) & 0x7F == 0b110_0010 {
        move_pair_code(out, scope, a, op, wide)
    } else if writeback && rn == 15 {
        interpret_code(out, scope, a, op)
    } else {
        let start = if !up {
            text::fill("base - 0x{}u"@, seq![offset])
        } else if one {
            text::fill("base + 0x{}u"@, seq![offset])
        } else {
            "base"@
        };
        let out = text::emitted(
            out,
            "    { uint32_t base = {}, p = {};"@,
            seq![scope.reg(rn, a.wrapping_add(8)), start],
        );
        let out = registers_moved(out, wide, load, first, moved_count(wide, one, op) as nat);
        let out = if !writeback {
            out
        } else if up {
            text::emitted(
                out,
                "    ctx->r[{}] = base + 0x{}u;"@,
                seq![text::dec(rn as nat), offset],
            )
        } else {
            text::emitted(
                out,
                "    ctx->r[{}] = base - 0x{}u;"@,
                seq![text::dec(rn as nat), offset],
            )
        };
        Code { text: text::emitted(out, "    (void)p; }"@, Seq::empty()), on: true }
    }
}

pub fn load_store(out: &mut String, scope: &Scope, a: u32, op: u32) -> (on: bool)
    ensures
        (Code { text: final(out)@, on }) == load_store_code(old(out)@, scope@, a, op),
{
    proof {
        lemma_registers(0, op);
    }
    let coprocessor = (op >> 8) & 0xF;
    if coprocessor != 10 && coprocessor != 11 {
        return interpret(out, scope, a, op);
    }
    let wide = coprocessor == 11;
    if (op >> 21) & 0x7F == 0b110_0010 {
        return move_pair(out, scope, a, op, wide);
    }
    let load = arm::bit_set(op, 20);
    let pre = arm::bit_set(op, 24);
    let up = arm::bit_set(op, 23);
    let writeback = arm::bit_set(op, 21);
    let rn = (op >> 16) & 0xF;
    if writeback && rn == 15 {
        return interpret(out, scope, a, op);
    }
    let one = pre && !writeback;
    let offset = hexadecimal((op & 0xFF) * 4);
    let (vd, d_bit) = ((op >> 12) & 0xF, arm::bit_set(op, 22));
    let first = if wide {
        dreg(vd, d_bit)
    } else {
        sreg(vd, d_bit)
    };
    let listed = if wide {
        (op & 0xFF) / 2
    } else {
        op & 0xFF
    };
    let count = if one || listed == 0 {
        1
    } else {
        listed
    };
    let start = if !up {
        form1("base - 0x{}u", offset.as_str())
    } else if one {
        form1("base + 0x{}u", offset.as_str())
    } else {
        "base".to_owned()
    };
    emit2(
        out,
        "    { uint32_t base = {}, p = {};",
        scope.reg(rn, a.wrapping_add(8)).as_str(),
        start.as_str(),
    );
    let ghost begun = out@;
    for i in 0..count
        invariant
            first <= 31,
            count <= 255,
            out@ == registers_moved(begun, wide, load, first, i as nat),
    {
        let register = first + i;
        if wide {
            move_word(out, load, "p", (register * 2) & 31);
            move_word(out, load, "p + 4", (register * 2 + 1) & 31);
            emit0(out, "    p += 8;");
        } else {
            move_word(out, load, "p", register & 31);
            emit0(out, "    p += 4;");
        }
    }
    if writeback {
        if up {
            emit2(
                out,
                "    ctx->r[{}] = base + 0x{}u;",
                decimal(rn).as_str(),
                offset.as_str(),
            );
        } else {
            emit2(
                out,
                "    ctx->r[{}] = base - 0x{}u;",
                decimal(rn).as_str(),
                offset.as_str(),
            );
        }
    }
    emit0(out, "    (void)p; }");
    true
}

/// the two singles that vmov moves to or from two core registers.
pub open spec fn pair_of(wide: bool, op: u32) -> (u32, u32) {
    if wide {
        let dm = double(op & 0xF, arm::bit(op, 5));
        (((dm * 2) as u32) & 31, ((dm * 2 + 1) as u32) & 31)
    } else {
        let sm = single(op & 0xF, arm::bit(op, 5));
        (sm, ((sm + 1) as u32) & 31)
    }
}

/// vmov between two core registers and a double or two singles.
pub open spec fn move_pair_code(out: Seq<char>, scope: Names, a: u32, op: u32, wide: bool) -> Code {
    let rt = (op >> 12) & 0xF;
    let rt2 = (op >> 16) & 0xF;
    let (low, high) = pair_of(wide, op);
    if rt == 15 || rt2 == 15 {
        interpret_code(out, scope, a, op)
    } else if arm::bit(op, 20) {
        Code {
            text: text::emitted(
                out,
                "    ctx->r[{}] = ctx->vfp[{}]; ctx->r[{}] = ctx->vfp[{}];"@,
                seq![
                    text::dec(rt as nat),
                    text::dec(low as nat),
                    text::dec(rt2 as nat),
                    text::dec(high as nat),
                ],
            ),
            on: true,
        }
    } else {
        Code {
            text: text::emitted(
                out,
                "    ctx->vfp[{}] = ctx->r[{}]; ctx->vfp[{}] = ctx->r[{}];"@,
                seq![
                    text::dec(low as nat),
                    text::dec(rt as nat),
                    text::dec(high as nat),
                    text::dec(rt2 as nat),
                ],
            ),
            on: true,
        }
    }
}

fn move_pair(out: &mut String, scope: &Scope, a: u32, op: u32, wide: bool) -> (on: bool)
    ensures
        (Code { text: final(out)@, on }) == move_pair_code(old(out)@, scope@, a, op, wide),
{
    proof {
        lemma_registers(0, op);
    }
    let load = arm::bit_set(op, 20);
    let rt = (op >> 12) & 0xF;
    let rt2 = (op >> 16) & 0xF;
    if rt == 15 || rt2 == 15 {
        return interpret(out, scope, a, op);
    }
    let (vm, m_bit) = (op & 0xF, arm::bit_set(op, 5));
    let (low, high) = if wide {
        let dm = dreg(vm, m_bit);
        ((dm * 2) & 31, (dm * 2 + 1) & 31)
    } else {
        let sm = sreg(vm, m_bit);
        (sm, (sm + 1) & 31)
    };
    if load {
        emit4(
            out,
            "    ctx->r[{}] = ctx->vfp[{}]; ctx->r[{}] = ctx->vfp[{}];",
            decimal(rt).as_str(),
            decimal(low).as_str(),
            decimal(rt2).as_str(),
            decimal(high).as_str(),
        );
    } else {
        emit4(
            out,
            "    ctx->vfp[{}] = ctx->r[{}]; ctx->vfp[{}] = ctx->r[{}];",
            decimal(low).as_str(),
            decimal(rt).as_str(),
            decimal(high).as_str(),
            decimal(rt2).as_str(),
        );
    }
    true
}

} // verus!
