//! lowering ARM instructions to C. the decoding follows the interpreter's,
//! down to which pipeline offset each form reads r15 with, so that the two
//! agree on every instruction. anything uncommon is left to the interpreter.

use crate::arm;
use crate::arm::bit_set;
use crate::codegen;
use crate::codegen::vfp;
use crate::codegen::vfp::interpret;
use crate::codegen::{call, condition_name, jump, register, Code, Names, Scope};
use crate::text;
use crate::text::{
    decimal, emit0, emit1, emit2, emit3, emit4, emit5, emit6, emit8, form1, form2, form3, form4,
    form5, hexadecimal, word,
};
use vstd::prelude::*;

verus! {

/// C that execution carries on past.
pub open spec fn on(text: Seq<char>) -> Code {
    Code { text, on: true }
}

/// C that execution does not carry on past.
pub open spec fn off(text: Seq<char>) -> Code {
    Code { text, on: false }
}

/// the C for the instruction at address.
pub open spec fn lower_code(out: Seq<char>, scope: Names, address: u32, op: u32) -> Code {
    let condition = op >> 28;
    if condition == 0xF {
        unconditional_code(out, scope, address, op)
    } else if condition == 0xE {
        body_code(out, scope, address, op)
    } else {
        let out = text::emitted(out, "    if ({}) {"@, seq![codegen::condition_text(condition)]);
        let out = body_code(out, scope, address, op).text;
        on(text::emitted(out, "    }"@, Seq::empty()))
    }
}

/// writes the C for the instruction at address, returning whether execution
/// can carry on to the next one.
pub fn lower(out: &mut String, scope: &Scope, address: u32, op: u32) -> (on: bool)
    ensures
        (Code { text: final(out)@, on }) == lower_code(old(out)@, scope@, address, op),
{
    let condition = op >> 28;
    if condition == 0xF {
        return unconditional(out, scope, address, op);
    }
    if condition == 0xE {
        return body(out, scope, address, op);
    }
    emit1(out, "    if ({}) {", condition_name(condition));
    body(out, scope, address, op);
    emit0(out, "    }");
    true
}

/// the C for an instruction whose condition holds.
pub open spec fn body_code(out: Seq<char>, scope: Names, a: u32, op: u32) -> Code {
    let space = (op >> 25) & 7;
    if space == 0b000 {
        register_space_code(out, scope, a, op)
    } else if space == 0b001 {
        if (op >> 23) & 3 == 0b10 && !arm::bit(op, 20) {
            // msr with an immediate lives in the compare opcodes without s,
            // and with no fields to write it is nop and the other hints
            if arm::bit(op, 21) && (op >> 16) & 0xF == 0 {
                on(out)
            } else {
                vfp::interpret_code(out, scope, a, op)
            }
        } else {
            data_processing_code(out, scope, a, op)
        }
    } else if space == 0b010 || (space == 0b011 && !arm::bit(op, 4)) {
        single_transfer_code(out, scope, a, op)
    } else if space == 0b011 {
        media_code(out, scope, a, op)
    } else if space == 0b100 {
        block_transfer_code(out, scope, a, op)
    } else if space == 0b101 {
        let target = arm::displaced(a.wrapping_add(8), arm::branch_offset(op));
        if arm::bit(op, 24) {
            codegen::call_code(out, scope, a.wrapping_add(4), target, false)
        } else {
            codegen::jump_code(out, scope, target, false)
        }
    } else if space == 0b110 {
        vfp::load_store_code(out, scope, a, op)
    } else if arm::bit(op, 24) {
        off(
            text::emitted(
                out,
                "    SVC({}, 0x{}u);"@,
                seq![scope.at(a.wrapping_add(4)), text::hex((op & 0x00FF_FFFF) as nat)],
            ),
        )
    } else if !arm::bit(op, 4) {
        vfp::data_processing_code(out, scope, a, op)
    } else if (op >> 8) & 0xF == 10 || (op >> 8) & 0xF == 11 {
        vfp::register_transfer_code(out, scope, a, op)
    } else {
        cp15_code(out, scope, a, op)
    }
}

fn body(out: &mut String, scope: &Scope, a: u32, op: u32) -> (on: bool)
    ensures
        (Code { text: final(out)@, on }) == body_code(old(out)@, scope@, a, op),
{
    let space = (op >> 25) & 7;
    if space == 0b000 {
        register_space(out, scope, a, op)
    } else if space == 0b001 {
        if (op >> 23) & 3 == 0b10 && !bit_set(op, 20) {
            // msr with an immediate lives in the compare opcodes without s,
            // and with no fields to write it is nop and the other hints
            if bit_set(op, 21) && (op >> 16) & 0xF == 0 {
                true
            } else {
                interpret(out, scope, a, op)
            }
        } else {
            data_processing(out, scope, a, op)
        }
    } else if space == 0b010 || (space == 0b011 && !bit_set(op, 4)) {
        single_transfer(out, scope, a, op)
    } else if space == 0b011 {
        media(out, scope, a, op)
    } else if space == 0b100 {
        block_transfer(out, scope, a, op)
    } else if space == 0b101 {
        let target = arm::branch_target(op, a);
        if bit_set(op, 24) {
            call(out, scope, a.wrapping_add(4), target, false)
        } else {
            jump(out, scope, target, false)
        }
    } else if space == 0b110 {
        vfp::load_store(out, scope, a, op)
    } else if bit_set(op, 24) {
        emit2(
            out,
            "    SVC({}, 0x{}u);",
            scope.at(a.wrapping_add(4)).as_str(),
            hexadecimal(op & 0x00FF_FFFF).as_str(),
        );
        false
    } else if !bit_set(op, 4) {
        vfp::data_processing(out, scope, a, op)
    } else if (op >> 8) & 0xF == 10 || (op >> 8) & 0xF == 11 {
        vfp::register_transfer(out, scope, a, op)
    } else {
        cp15(out, scope, a, op)
    }
}

/// cp15, where reading the TLS address is common enough to do here, and so
/// are the barriers and data cache maintenance, which change nothing for
/// code that sees memory as it is.
pub open spec fn cp15_code(out: Seq<char>, scope: Names, a: u32, op: u32) -> Code {
    let rd = (op >> 12) & 0xF;
    let rm = op & 0xF;
    let data_cache = op & 0x0FFF_0F10 == 0x0E07_0F10 && rm != 5 && rm != 7 && rm != 13;
    if op & 0x0FFF_0FFF == 0x0E1D_0F70 && rd != 15 {
        on(text::emitted(out, "    ctx->r[{}] = ctx->tls;"@, seq![text::dec(rd as nat)]))
    } else if data_cache {
        on(out)
    } else {
        vfp::interpret_code(out, scope, a, op)
    }
}

fn cp15(out: &mut String, scope: &Scope, a: u32, op: u32) -> (on: bool)
    ensures
        (Code { text: final(out)@, on }) == cp15_code(old(out)@, scope@, a, op),
{
    let rd = (op >> 12) & 0xF;
    let rm = op & 0xF;
    let data_cache = op & 0x0FFF_0F10 == 0x0E07_0F10 && rm != 5 && rm != 7 && rm != 13;
    if op & 0x0FFF_0FFF == 0x0E1D_0F70 && rd != 15 {
        emit1(out, "    ctx->r[{}] = ctx->tls;", decimal(rd).as_str());
        true
    } else if data_cache {
        true
    } else {
        interpret(out, scope, a, op)
    }
}

/// the register data processing space, with the multiplies, extra loads
/// and stores and miscellaneous instructions in its holes.
pub open spec fn register_space_code(out: Seq<char>, scope: Names, a: u32, op: u32) -> Code {
    let kind = (op >> 21) & 7;
    let low = (op >> 4) & 0xF;
    if op & 0x90 == 0x90 {
        if (op >> 5) & 3 != 0 {
            extra_transfer_code(out, scope, a, op)
        } else if arm::bit(op, 24) {
            if arm::bit(op, 23) {
                exclusive_code(out, scope, a, op)
            } else {
                swap_code(out, scope, a, op)
            }
        } else if kind == 0b000 || kind == 0b001 {
            multiply_code(out, scope, a, op)
        } else if kind == 0b011 {
            vfp::interpret_code(out, scope, a, op)
        } else {
            multiply_long_code(out, scope, a, op)
        }
    } else if (op >> 23) & 3 == 0b10 && !arm::bit(op, 20) {
        if low == 0b0001 && (op >> 21) & 3 == 0b11 {
            clz_code(out, scope, a, op)
        } else if low == 0b0001 || low == 0b0011 {
            branch_exchange_code(out, scope, a, op)
        } else if low == 0b0101 {
            saturating_code(out, scope, a, op)
        } else if low & 0b1001 == 0b1000 {
            halfword_multiply_code(out, scope, a, op)
        } else {
            vfp::interpret_code(out, scope, a, op)
        }
    } else {
        data_processing_code(out, scope, a, op)
    }
}

fn register_space(out: &mut String, scope: &Scope, a: u32, op: u32) -> (on: bool)
    ensures
        (Code { text: final(out)@, on }) == register_space_code(old(out)@, scope@, a, op),
{
    let kind = (op >> 21) & 7;
    let low = (op >> 4) & 0xF;
    if op & 0x90 == 0x90 {
        if (op >> 5) & 3 != 0 {
            extra_transfer(out, scope, a, op)
        } else if bit_set(op, 24) {
            if bit_set(op, 23) {
                exclusive(out, scope, a, op)
            } else {
                swap(out, scope, a, op)
            }
        } else if kind == 0b000 || kind == 0b001 {
            multiply(out, scope, a, op)
        } else if kind == 0b011 {
            interpret(out, scope, a, op)
        } else {
            multiply_long(out, scope, a, op)
        }
    } else if (op >> 23) & 3 == 0b10 && !bit_set(op, 20) {
        if low == 0b0001 && (op >> 21) & 3 == 0b11 {
            clz(out, scope, a, op)
        } else if low == 0b0001 || low == 0b0011 {
            branch_exchange(out, scope, a, op)
        } else if low == 0b0101 {
            saturating(out, scope, a, op)
        } else if low & 0b1001 == 0b1000 {
            halfword_multiply(out, scope, a, op)
        } else {
            interpret(out, scope, a, op)
        }
    } else {
        data_processing(out, scope, a, op)
    }
}

/// the fields of an instruction stay inside their widths.
proof fn lemma_op(op: u32)
    by (bit_vector)
    ensures
        (op >> 7) & 0x1F <= 31,
        (op >> 8) & 0xF <= 15,
        (op >> 12) & 0xF <= 15,
        (op >> 16) & 0xF <= 15,
        (op >> 16) & 0x1F <= 31,
        (op >> 10) & 3 <= 3,
        op & 0xF <= 15,
        op & 0xFFFF <= 0xFFFF,
        (op >> 21) & 7 <= 7,
{
}

/// m shifted by a constant amount, and the carry that comes out.
pub open spec fn shifted_text(kind: u32, amount: u32) -> (Seq<char>, Seq<char>) {
    let n = text::dec(amount as nat);
    let rest = text::dec((32 - amount) as nat);
    let last = text::dec((amount - 1) as nat);
    if kind == 0 {
        if amount == 0 {
            ("m"@, "ctx->c"@)
        } else {
            (text::fill("m << {}"@, seq![n]), text::fill("(m >> {}) & 1"@, seq![rest]))
        }
    } else if kind == 1 {
        if amount == 0 {
            ("0"@, "m >> 31"@)
        } else {
            (text::fill("m >> {}"@, seq![n]), text::fill("(m >> {}) & 1"@, seq![last]))
        }
    } else if kind == 2 {
        if amount == 0 {
            ("(uint32_t)((int32_t)m >> 31)"@, "m >> 31"@)
        } else {
            (
                text::fill("(uint32_t)((int32_t)m >> {})"@, seq![n]),
                text::fill("(m >> {}) & 1"@, seq![last]),
            )
        }
    } else if amount == 0 {
        // ror 0 is rrx
        ("((uint32_t)ctx->c << 31) | (m >> 1)"@, "m & 1"@)
    } else {
        (
            text::fill("(m >> {}) | (m << {})"@, seq![n, rest]),
            text::fill("(m >> {}) & 1"@, seq![last]),
        )
    }
}

pub fn shifted(kind: u32, amount: u32) -> (texts: (String, String))
    requires
        amount <= 31,
    ensures
        texts.0@ == shifted_text(kind, amount).0,
        texts.1@ == shifted_text(kind, amount).1,
{
    if amount == 0 {
        return if kind == 0 {
            ("m".to_owned(), "ctx->c".to_owned())
        } else if kind == 1 {
            ("0".to_owned(), "m >> 31".to_owned())
        } else if kind == 2 {
            ("(uint32_t)((int32_t)m >> 31)".to_owned(), "m >> 31".to_owned())
        } else {
            // ror 0 is rrx
            ("((uint32_t)ctx->c << 31) | (m >> 1)".to_owned(), "m & 1".to_owned())
        };
    }
    let n = decimal(amount);
    let rest = decimal(32 - amount);
    let last = decimal(amount - 1);
    if kind == 0 {
        (form1("m << {}", n.as_str()), form1("(m >> {}) & 1", rest.as_str()))
    } else if kind == 1 {
        (form1("m >> {}", n.as_str()), form1("(m >> {}) & 1", last.as_str()))
    } else if kind == 2 {
        (
            form1("(uint32_t)((int32_t)m >> {})", n.as_str()),
            form1("(m >> {}) & 1", last.as_str()),
        )
    } else {
        (
            form2("(m >> {}) | (m << {})", n.as_str(), rest.as_str()),
            form1("(m >> {}) & 1", last.as_str()),
        )
    }
}

/// the C function for a shift by a register.
pub open spec fn shift_text(kind: u32) -> Seq<char> {
    if kind == 0 {
        "shift_lsl"@
    } else if kind == 1 {
        "shift_lsr"@
    } else if kind == 2 {
        "shift_asr"@
    } else {
        "shift_ror"@
    }
}

pub fn shift_name(kind: u32) -> (name: &'static str)
    ensures
        name@ == shift_text(kind),
{
    if kind == 0 {
        "shift_lsl"
    } else if kind == 1 {
        "shift_lsr"
    } else if kind == 2 {
        "shift_asr"
    } else {
        "shift_ror"
    }
}

/// the shifter operand as b, and its carry as sc when the flags need it.
pub open spec fn shifter_operand_text(
    out: Seq<char>,
    scope: Names,
    a: u32,
    op: u32,
    carry: bool,
) -> Seq<char> {
    let rm = op & 0xF;
    let kind = (op >> 5) & 3;
    if arm::bit(op, 25) {
        let value = arm::immediate_of(op);
        let out = text::emitted(
            out,
            "    uint32_t b = 0x{}u;"@,
            seq![text::hex_wide(value as nat, 8)],
        );
        if !carry {
            out
        } else if (op >> 8) & 0xF == 0 {
            text::emitted(out, "    uint8_t sc = ctx->c;"@, Seq::empty())
        } else {
            text::emitted(out, "    uint8_t sc = {};"@, seq![text::dec((value >> 31) as nat)])
        }
    } else if arm::bit(op, 4) {
        let rs = (op >> 8) & 0xF;
        let out = text::emitted(out, "    uint8_t sc = ctx->c;"@, Seq::empty());
        text::emitted(
            out,
            "    uint32_t b = {}({}, {}, &sc);"@,
            seq![
                shift_text(kind),
                scope.reg(rm, a.wrapping_add(12)),
                scope.reg(rs, a.wrapping_add(12)),
            ],
        )
    } else {
        let (value, carry_out) = shifted_text(kind, (op >> 7) & 0x1F);
        let out = text::emitted(
            out,
            "    uint32_t m = {};"@,
            seq![scope.reg(rm, a.wrapping_add(8))],
        );
        let out = text::emitted(out, "    uint32_t b = {};"@, seq![value]);
        if carry {
            text::emitted(out, "    uint8_t sc = {};"@, seq![carry_out])
        } else {
            out
        }
    }
}

fn shifter_operand(out: &mut String, scope: &Scope, a: u32, op: u32, carry: bool)
    ensures
        final(out)@ == shifter_operand_text(old(out)@, scope@, a, op, carry),
{
    proof {
        lemma_op(op);
    }
    if bit_set(op, 25) {
        let rotate = (op >> 8) & 0xF;
        let value = arm::immediate(op);
        emit1(out, "    uint32_t b = 0x{}u;", word(value).as_str());
        if carry {
            if rotate == 0 {
                emit0(out, "    uint8_t sc = ctx->c;");
            } else {
                emit1(out, "    uint8_t sc = {};", decimal(value >> 31).as_str());
            }
        }
        return;
    }
    let rm = op & 0xF;
    let kind = (op >> 5) & 3;
    if bit_set(op, 4) {
        let rs = (op >> 8) & 0xF;
        emit0(out, "    uint8_t sc = ctx->c;");
        emit3(
            out,
            "    uint32_t b = {}({}, {}, &sc);",
            shift_name(kind),
            scope.reg(rm, a.wrapping_add(12)).as_str(),
            scope.reg(rs, a.wrapping_add(12)).as_str(),
        );
        return;
    }
    let (value, carry_out) = shifted(kind, (op >> 7) & 0x1F);
    emit1(out, "    uint32_t m = {};", scope.reg(rm, a.wrapping_add(8)).as_str());
    emit1(out, "    uint32_t b = {};", value.as_str());
    if carry {
        emit1(out, "    uint8_t sc = {};", carry_out.as_str());
    }
}

/// what a data processing opcode computes, as C.
pub open spec fn result_text(opcode: u32) -> Seq<char> {
    if opcode == 0 || opcode == 8 {
        "a & b"@
    } else if opcode == 1 || opcode == 9 {
        "a ^ b"@
    } else if opcode == 2 || opcode == 10 {
        "a - b"@
    } else if opcode == 3 {
        "b - a"@
    } else if opcode == 4 || opcode == 11 {
        "a + b"@
    } else if opcode == 5 {
        "a + b + ci"@
    } else if opcode == 6 {
        "a - b - !ci"@
    } else if opcode == 7 {
        "b - a - !ci"@
    } else if opcode == 12 {
        "a | b"@
    } else if opcode == 13 {
        "b"@
    } else if opcode == 14 {
        "a & ~b"@
    } else {
        "~b"@
    }
}

fn result_name(opcode: u32) -> (name: &'static str)
    ensures
        name@ == result_text(opcode),
{
    if opcode == 0 || opcode == 8 {
        "a & b"
    } else if opcode == 1 || opcode == 9 {
        "a ^ b"
    } else if opcode == 2 || opcode == 10 {
        "a - b"
    } else if opcode == 3 {
        "b - a"
    } else if opcode == 4 || opcode == 11 {
        "a + b"
    } else if opcode == 5 {
        "a + b + ci"
    } else if opcode == 6 {
        "a - b - !ci"
    } else if opcode == 7 {
        "b - a - !ci"
    } else if opcode == 12 {
        "a | b"
    } else if opcode == 13 {
        "b"
    } else if opcode == 14 {
        "a & ~b"
    } else {
        "~b"
    }
}

/// how a data processing opcode sets the carry and overflow flags, as C.
pub open spec fn flags_text(opcode: u32) -> Seq<char> {
    if opcode == 2 || opcode == 10 {
        "    ctx->c = a >= b; ctx->v = ((a ^ b) & (a ^ r)) >> 31;"@
    } else if opcode == 3 {
        "    ctx->c = b >= a; ctx->v = ((b ^ a) & (b ^ r)) >> 31;"@
    } else if opcode == 4 || opcode == 11 {
        "    ctx->c = r < a; ctx->v = ((a ^ r) & (b ^ r)) >> 31;"@
    } else if opcode == 5 {
        "    ctx->c = ((uint64_t)a + b + ci) >> 32; ctx->v = ((a ^ r) & (b ^ r)) >> 31;"@
    } else if opcode == 6 {
        "    ctx->c = (uint64_t)a >= (uint64_t)b + !ci; ctx->v = ((a ^ b) & (a ^ r)) >> 31;"@
    } else if opcode == 7 {
        "    ctx->c = (uint64_t)b >= (uint64_t)a + !ci; ctx->v = ((b ^ a) & (b ^ r)) >> 31;"@
    } else {
        "    ctx->c = sc;"@
    }
}

fn flags_name(opcode: u32) -> (name: &'static str)
    ensures
        name@ == flags_text(opcode),
{
    if opcode == 2 || opcode == 10 {
        "    ctx->c = a >= b; ctx->v = ((a ^ b) & (a ^ r)) >> 31;"
    } else if opcode == 3 {
        "    ctx->c = b >= a; ctx->v = ((b ^ a) & (b ^ r)) >> 31;"
    } else if opcode == 4 || opcode == 11 {
        "    ctx->c = r < a; ctx->v = ((a ^ r) & (b ^ r)) >> 31;"
    } else if opcode == 5 {
        "    ctx->c = ((uint64_t)a + b + ci) >> 32; ctx->v = ((a ^ r) & (b ^ r)) >> 31;"
    } else if opcode == 6 {
        "    ctx->c = (uint64_t)a >= (uint64_t)b + !ci; ctx->v = ((a ^ b) & (a ^ r)) >> 31;"
    } else if opcode == 7 {
        "    ctx->c = (uint64_t)b >= (uint64_t)a + !ci; ctx->v = ((b ^ a) & (b ^ r)) >> 31;"
    } else {
        "    ctx->c = sc;"
    }
}

/// the opcode sets its carry from the shifter.
pub open spec fn is_logical(opcode: u32) -> bool {
    opcode <= 1 || opcode == 8 || opcode == 9 || opcode >= 12
}

/// the data processing instructions.
pub open spec fn data_processing_code(out: Seq<char>, scope: Names, a: u32, op: u32) -> Code {
    let opcode = (op >> 21) & 0xF;
    let set_flags = arm::bit(op, 20);
    let rn = (op >> 16) & 0xF;
    let rd = (op >> 12) & 0xF;
    let compare = 8 <= opcode <= 11;
    let register_shift = !arm::bit(op, 25) && arm::bit(op, 4);
    if set_flags && rd == 15 && !compare {
        // an exception return, which also restores cpsr
        vfp::interpret_code(out, scope, a, op)
    } else {
        let pc = if register_shift {
            a.wrapping_add(12)
        } else {
            a.wrapping_add(8)
        };
        let out = text::emitted(out, "    {"@, Seq::empty());
        let out = shifter_operand_text(out, scope, a, op, set_flags && is_logical(opcode));
        let out = if opcode == 13 || opcode == 15 {
            out
        } else {
            text::emitted(out, "    uint32_t a = {};"@, seq![scope.reg(rn, pc)])
        };
        let out = if 5 <= opcode <= 7 {
            text::emitted(out, "    uint8_t ci = ctx->c;"@, Seq::empty())
        } else {
            out
        };
        let out = text::emitted(out, "    uint32_t r = {};"@, seq![result_text(opcode)]);
        let out = if set_flags {
            let out = text::emitted(
                out,
                "    ctx->n = r >> 31; ctx->z = r == 0;"@,
                Seq::empty(),
            );
            text::emitted(out, flags_text(opcode), Seq::empty())
        } else {
            out
        };
        let out = if compare {
            out
        } else if rd != 15 {
            text::emitted(out, "    ctx->r[{}] = r;"@, seq![text::dec(rd as nat)])
        } else if opcode == 13 && op & 0x0200_0FFF == 14 {
            // mov pc, lr returns, any other write to pc jumps
            text::emitted(out, "    ctx->r[15] = r & ~3u; return;"@, Seq::empty())
        } else {
            text::emitted(out, "    target = r & ~3u; goto dispatch;"@, Seq::empty())
        };
        Code {
            text: text::emitted(out, "    }"@, Seq::empty()),
            on: compare || rd != 15,
        }
    }
}

fn data_processing(out: &mut String, scope: &Scope, a: u32, op: u32) -> (on: bool)
    ensures
        (Code { text: final(out)@, on }) == data_processing_code(old(out)@, scope@, a, op),
{
    let opcode = (op >> 21) & 0xF;
    let set_flags = bit_set(op, 20);
    let rn = (op >> 16) & 0xF;
    let rd = (op >> 12) & 0xF;
    let compare = 8 <= opcode && opcode <= 11;
    if set_flags && rd == 15 && !compare {
        // an exception return, which also restores cpsr
        return interpret(out, scope, a, op);
    }
    let register_shift = !bit_set(op, 25) && bit_set(op, 4);
    let logical = opcode <= 1 || opcode == 8 || opcode == 9 || opcode >= 12;
    emit0(out, "    {");
    shifter_operand(out, scope, a, op, set_flags && logical);
    if opcode != 13 && opcode != 15 {
        let pc = if register_shift {
            a.wrapping_add(12)
        } else {
            a.wrapping_add(8)
        };
        emit1(out, "    uint32_t a = {};", scope.reg(rn, pc).as_str());
    }
    if 5 <= opcode && opcode <= 7 {
        emit0(out, "    uint8_t ci = ctx->c;");
    }
    emit1(out, "    uint32_t r = {};", result_name(opcode));
    if set_flags {
        emit0(out, "    ctx->n = r >> 31; ctx->z = r == 0;");
        emit0(out, flags_name(opcode));
    }
    let on = if compare {
        true
    } else if rd == 15 {
        // mov pc, lr returns, any other write to pc jumps
        if opcode == 13 && op & 0x0200_0FFF == 14 {
            emit0(out, "    ctx->r[15] = r & ~3u; return;");
        } else {
            emit0(out, "    target = r & ~3u; goto dispatch;");
        }
        false
    } else {
        emit1(out, "    ctx->r[{}] = r;", decimal(rd).as_str());
        true
    };
    emit0(out, "    }");
    on
}

/// the offset of a load or store by a register, as C.
pub open spec fn offset_text(m: Seq<char>, kind: u32, amount: u32) -> Seq<char> {
    let n = text::dec(amount as nat);
    if kind == 0 {
        text::fill("({} << {})"@, seq![m, n])
    } else if kind == 1 {
        if amount == 0 {
            "0"@
        } else {
            text::fill("({} >> {})"@, seq![m, n])
        }
    } else if kind == 2 {
        if amount == 0 {
            text::fill("(uint32_t)((int32_t){} >> 31)"@, seq![m])
        } else {
            text::fill("(uint32_t)((int32_t){} >> {})"@, seq![m, n])
        }
    } else if amount == 0 {
        text::fill("(((uint32_t)ctx->c << 31) | ({} >> 1))"@, seq![m])
    } else {
        text::fill("ror32({}, {})"@, seq![m, n])
    }
}

fn register_offset(m: &str, kind: u32, amount: u32) -> (text: String)
    ensures
        text@ == offset_text(m@, kind, amount),
{
    let n = decimal(amount);
    if kind == 0 {
        form2("({} << {})", m, n.as_str())
    } else if kind == 1 {
        if amount == 0 {
            "0".to_owned()
        } else {
            form2("({} >> {})", m, n.as_str())
        }
    } else if kind == 2 {
        if amount == 0 {
            form1("(uint32_t)((int32_t){} >> 31)", m)
        } else {
            form2("(uint32_t)((int32_t){} >> {})", m, n.as_str())
        }
    } else if amount == 0 {
        form1("(((uint32_t)ctx->c << 31) | ({} >> 1))", m)
    } else {
        form2("ror32({}, {})", m, n.as_str())
    }
}

/// the sign of the offset of a load or store.
pub open spec fn sign_text(plus: bool) -> Seq<char> {
    if plus {
        "+"@
    } else {
        "-"@
    }
}

pub fn sign_name(plus: bool) -> (name: &'static str)
    ensures
        name@ == sign_text(plus),
{
    if plus {
        "+"
    } else {
        "-"
    }
}

/// ldr, str, ldrb and strb.
pub open spec fn single_transfer_code(out: Seq<char>, scope: Names, a: u32, op: u32) -> Code {
    let rn = (op >> 16) & 0xF;
    let rd = (op >> 12) & 0xF;
    let pre = arm::bit(op, 24);
    let byte = arm::bit(op, 22);
    let load = arm::bit(op, 20);
    let plus = arm::bit(op, 23);
    let writeback = !pre || arm::bit(op, 21);
    let offset = if arm::bit(op, 25) {
        offset_text(scope.reg(op & 0xF, a.wrapping_add(8)), (op >> 5) & 3, (op >> 7) & 0x1F)
    } else {
        text::fill("0x{}u"@, seq![text::hex((op & 0xFFF) as nat)])
    };
    let address = if pre {
        "oa"@
    } else {
        "base"@
    };
    let back = seq![text::dec(rn as nat)];
    if writeback && rn == 15 {
        vfp::interpret_code(out, scope, a, op)
    } else {
        let out = text::emitted(
            out,
            "    { uint32_t base = {}, oa = base {} {};"@,
            seq![scope.reg(rn, a.wrapping_add(8)), sign_text(plus), offset],
        );
        if load {
            let out = if byte {
                text::emitted(out, "    uint32_t v = mem_read8(ctx, {});"@, seq![address])
            } else {
                text::emitted(out, "    uint32_t v = mem_read32(ctx, {});"@, seq![address])
            };
            let out = if writeback && rn != rd {
                text::emitted(out, "    ctx->r[{}] = oa;"@, back)
            } else {
                out
            };
            if rd == 15 {
                // ldr pc, [sp], 4 is a pop
                let pop = rn == 13 && !pre && plus && !arm::bit(op, 25) && op & 0xFFF == 4;
                off(
                    if pop {
                        text::emitted(out, "    RETURN_TO(v); }"@, Seq::empty())
                    } else {
                        text::emitted(out, "    JUMP_TO(v); }"@, Seq::empty())
                    },
                )
            } else {
                on(text::emitted(out, "    ctx->r[{}] = v; }"@, seq![text::dec(rd as nat)]))
            }
        } else {
            // storing r15 stores the address plus 12
            let value = scope.reg(rd, a.wrapping_add(12));
            let out = if byte {
                text::emitted(out, "    mem_write8(ctx, {}, (uint8_t){});"@, seq![address, value])
            } else {
                text::emitted(out, "    mem_write32(ctx, {}, {});"@, seq![address, value])
            };
            let out = if writeback {
                text::emitted(out, "    ctx->r[{}] = oa;"@, back)
            } else {
                out
            };
            on(text::emitted(out, "    }"@, Seq::empty()))
        }
    }
}

fn single_transfer(out: &mut String, scope: &Scope, a: u32, op: u32) -> (on: bool)
    ensures
        (Code { text: final(out)@, on }) == single_transfer_code(old(out)@, scope@, a, op),
{
    let rn = (op >> 16) & 0xF;
    let rd = (op >> 12) & 0xF;
    let pre = bit_set(op, 24);
    let byte = bit_set(op, 22);
    let load = bit_set(op, 20);
    let plus = bit_set(op, 23);
    let writeback = !pre || bit_set(op, 21);
    if writeback && rn == 15 {
        return interpret(out, scope, a, op);
    }
    let offset = if bit_set(op, 25) {
        let m = scope.reg(op & 0xF, a.wrapping_add(8));
        register_offset(m.as_str(), (op >> 5) & 3, (op >> 7) & 0x1F)
    } else {
        form1("0x{}u", hexadecimal(op & 0xFFF).as_str())
    };
    let address = if pre {
        "oa"
    } else {
        "base"
    };
    emit3(
        out,
        "    { uint32_t base = {}, oa = base {} {};",
        scope.reg(rn, a.wrapping_add(8)).as_str(),
        sign_name(plus),
        offset.as_str(),
    );
    if load {
        if byte {
            emit1(out, "    uint32_t v = mem_read8(ctx, {});", address);
        } else {
            emit1(out, "    uint32_t v = mem_read32(ctx, {});", address);
        }
        if writeback && rn != rd {
            emit1(out, "    ctx->r[{}] = oa;", decimal(rn).as_str());
        }
        if rd == 15 {
            // ldr pc, [sp], 4 is a pop
            let pop = rn == 13 && !pre && plus && !bit_set(op, 25) && op & 0xFFF == 4;
            if pop {
                emit0(out, "    RETURN_TO(v); }");
            } else {
                emit0(out, "    JUMP_TO(v); }");
            }
            return false;
        }
        emit1(out, "    ctx->r[{}] = v; }", decimal(rd).as_str());
    } else {
        // storing r15 stores the address plus 12
        let value = scope.reg(rd, a.wrapping_add(12));
        if byte {
            emit2(out, "    mem_write8(ctx, {}, (uint8_t){});", address, value.as_str());
        } else {
            emit2(out, "    mem_write32(ctx, {}, {});", address, value.as_str());
        }
        if writeback {
            emit1(out, "    ctx->r[{}] = oa;", decimal(rn).as_str());
        }
        emit0(out, "    }");
    }
    true
}

/// ldrh, strh, ldrsb, ldrsh, ldrd and strd.
pub open spec fn extra_transfer_code(out: Seq<char>, scope: Names, a: u32, op: u32) -> Code {
    let rn = (op >> 16) & 0xF;
    let rd = (op >> 12) & 0xF;
    let pre = arm::bit(op, 24);
    let load = arm::bit(op, 20);
    let writeback = !pre || arm::bit(op, 21);
    let kind = (op >> 5) & 3;
    let pair = kind >= 2 && !load;
    let offset = if arm::bit(op, 22) {
        text::fill("0x{}u"@, seq![text::hex((((op >> 4) & 0xF0) | (op & 0xF)) as nat)])
    } else {
        scope.reg(op & 0xF, a.wrapping_add(8))
    };
    let address = if pre {
        "oa"@
    } else {
        "base"@
    };
    let back = if writeback {
        text::fill(" ctx->r[{}] = oa;"@, seq![text::dec(rn as nat)])
    } else {
        ""@
    };
    let d = text::dec(rd as nat);
    let second = text::dec((rd + 1) as nat);
    if (writeback && rn == 15) || (load && rd == 15) || (pair && (rd & 1 != 0 || rd == 14)) {
        vfp::interpret_code(out, scope, a, op)
    } else {
        let out = text::emitted(
            out,
            "    { uint32_t base = {}, oa = base {} {};"@,
            seq![scope.reg(rn, a.wrapping_add(8)), sign_text(arm::bit(op, 23)), offset],
        );
        on(
            if kind == 1 && load {
                text::emitted(
                    out,
                    "    uint32_t v = mem_read16(ctx, {});{} ctx->r[{}] = v; }"@,
                    seq![address, back, d],
                )
            } else if kind == 1 {
                text::emitted(
                    out,
                    "    mem_write16(ctx, {}, (uint16_t){});{} }"@,
                    seq![address, scope.reg(rd, a.wrapping_add(8)), back],
                )
            } else if kind == 2 && load {
                text::emitted(
                    out,
                    "    uint32_t v = (uint32_t)(int32_t)(int8_t)mem_read8(ctx, {});{} ctx->r[{}] = v; }"@,
                    seq![address, back, d],
                )
            } else if kind == 2 {
                text::emitted(
                    out,
                    "    uint32_t lo = mem_read32(ctx, {}), hi = mem_read32(ctx, {} + 4);{} ctx->r[{}] = lo; ctx->r[{}] = hi; }"@,
                    seq![address, address, back, d, second],
                )
            } else if load {
                text::emitted(
                    out,
                    "    uint32_t v = (uint32_t)(int32_t)(int16_t)mem_read16(ctx, {});{} ctx->r[{}] = v; }"@,
                    seq![address, back, d],
                )
            } else {
                text::emitted(
                    out,
                    "    mem_write32(ctx, {}, ctx->r[{}]); mem_write32(ctx, {} + 4, ctx->r[{}]);{} }"@,
                    seq![address, d, address, second, back],
                )
            },
        )
    }
}

fn extra_transfer(out: &mut String, scope: &Scope, a: u32, op: u32) -> (on: bool)
    ensures
        (Code { text: final(out)@, on }) == extra_transfer_code(old(out)@, scope@, a, op),
{
    proof {
        lemma_op(op);
    }
    let rn = (op >> 16) & 0xF;
    let rd = (op >> 12) & 0xF;
    let pre = bit_set(op, 24);
    let load = bit_set(op, 20);
    let writeback = !pre || bit_set(op, 21);
    let kind = (op >> 5) & 3;
    let pair = kind >= 2 && !load;
    if (writeback && rn == 15) || (load && rd == 15) || (pair && (rd & 1 != 0 || rd == 14)) {
        return interpret(out, scope, a, op);
    }
    let offset = if bit_set(op, 22) {
        form1("0x{}u", hexadecimal(((op >> 4) & 0xF0) | (op & 0xF)).as_str())
    } else {
        scope.reg(op & 0xF, a.wrapping_add(8))
    };
    let address = if pre {
        "oa"
    } else {
        "base"
    };
    let back = if writeback {
        form1(" ctx->r[{}] = oa;", decimal(rn).as_str())
    } else {
        "".to_owned()
    };
    let d = decimal(rd);
    let second = decimal(rd + 1);
    emit3(
        out,
        "    { uint32_t base = {}, oa = base {} {};",
        scope.reg(rn, a.wrapping_add(8)).as_str(),
        sign_name(bit_set(op, 23)),
        offset.as_str(),
    );
    if kind == 1 && load {
        emit3(
            out,
            "    uint32_t v = mem_read16(ctx, {});{} ctx->r[{}] = v; }",
            address,
            back.as_str(),
            d.as_str(),
        );
    } else if kind == 1 {
        emit3(
            out,
            "    mem_write16(ctx, {}, (uint16_t){});{} }",
            address,
            scope.reg(rd, a.wrapping_add(8)).as_str(),
            back.as_str(),
        );
    } else if kind == 2 && load {
        emit3(
            out,
            "    uint32_t v = (uint32_t)(int32_t)(int8_t)mem_read8(ctx, {});{} ctx->r[{}] = v; }",
            address,
            back.as_str(),
            d.as_str(),
        );
    } else if kind == 2 {
        emit5(
            out,
            "    uint32_t lo = mem_read32(ctx, {}), hi = mem_read32(ctx, {} + 4);{} ctx->r[{}] = lo; ctx->r[{}] = hi; }",
            address,
            address,
            back.as_str(),
            d.as_str(),
            second.as_str(),
        );
    } else if load {
        emit3(
            out,
            "    uint32_t v = (uint32_t)(int32_t)(int16_t)mem_read16(ctx, {});{} ctx->r[{}] = v; }",
            address,
            back.as_str(),
            d.as_str(),
        );
    } else {
        emit5(
            out,
            "    mem_write32(ctx, {}, ctx->r[{}]); mem_write32(ctx, {} + 4, ctx->r[{}]);{} }",
            address,
            d.as_str(),
            address,
            second.as_str(),
            back.as_str(),
        );
    }
    true
}

/// how many of the registers below number are in list.
pub open spec fn listed(list: u32, number: nat) -> nat
    decreases number,
{
    if number == 0 {
        0
    } else {
        listed(list, (number - 1) as nat) + if arm::bit(list, (number - 1) as u32) {
            1nat
        } else {
            0nat
        }
    }
}

/// how many of the registers below number are in list.
pub fn count_listed(list: u32, number: u32) -> (count: u32)
    requires
        number <= 32,
    ensures
        count == listed(list, number as nat),
        count <= number,
{
    let mut count: u32 = 0;
    for i in 0..number
        invariant
            number <= 32,
            count == listed(list, i as nat),
            count <= i,
    {
        if bit_set(list, i) {
            count += 1;
        }
    }
    count
}

/// the registers below number in list loaded one after another.
pub open spec fn list_loaded(out: Seq<char>, list: u32, number: nat) -> Seq<char>
    decreases number,
{
    if number == 0 {
        out
    } else {
        let out = list_loaded(out, list, (number - 1) as nat);
        if arm::bit(list, (number - 1) as u32) {
            text::emitted(
                out,
                "    ctx->r[{}] = mem_read32(ctx, p); p += 4;"@,
                seq![text::dec((number - 1) as nat)],
            )
        } else {
            out
        }
    }
}

pub fn load_list(out: &mut String, list: u32, number: u32)
    requires
        number <= 32,
    ensures
        final(out)@ == list_loaded(old(out)@, list, number as nat),
{
    let ghost begun = out@;
    for i in 0..number
        invariant
            number <= 32,
            out@ == list_loaded(begun, list, i as nat),
    {
        if bit_set(list, i) {
            emit1(out, "    ctx->r[{}] = mem_read32(ctx, p); p += 4;", decimal(i).as_str());
        }
    }
}

/// what stm stores for a register. the base when it is not the lowest
/// register stores its new value.
pub open spec fn stored_text(
    scope: Names,
    a: u32,
    list: u32,
    rn: u32,
    writeback: bool,
    number: u32,
) -> Seq<char> {
    if number == 15 {
        scope.at(a.wrapping_add(12))
    } else if number == rn && writeback && listed(list, rn as nat) != 0 {
        "fin"@
    } else {
        codegen::register_text(number)
    }
}

/// the registers below number in list stored one after another.
pub open spec fn list_stored(
    out: Seq<char>,
    scope: Names,
    a: u32,
    list: u32,
    rn: u32,
    writeback: bool,
    number: nat,
) -> Seq<char>
    decreases number,
{
    if number == 0 {
        out
    } else {
        let out = list_stored(out, scope, a, list, rn, writeback, (number - 1) as nat);
        if arm::bit(list, (number - 1) as u32) {
            text::emitted(
                out,
                "    mem_write32(ctx, p, {}); p += 4;"@,
                seq![stored_text(scope, a, list, rn, writeback, (number - 1) as u32)],
            )
        } else {
            out
        }
    }
}

fn store_list(out: &mut String, scope: &Scope, a: u32, list: u32, rn: u32, writeback: bool)
    requires
        rn <= 15,
    ensures
        final(out)@ == list_stored(old(out)@, scope@, a, list, rn, writeback, 16),
{
    let lower = count_listed(list, rn);
    let ghost begun = out@;
    for i in 0..16u32
        invariant
            lower == listed(list, rn as nat),
            out@ == list_stored(begun, scope@, a, list, rn, writeback, i as nat),
    {
        if bit_set(list, i) {
            let value = if i == 15 {
                scope.at(a.wrapping_add(12))
            } else if i == rn && writeback && lower != 0 {
                "fin".to_owned()
            } else {
                register(i)
            };
            emit1(out, "    mem_write32(ctx, p, {}); p += 4;", value.as_str());
        }
    }
}

/// where ldm and stm start and where they leave the base, as C.
pub open spec fn span_text(up: bool, pre: bool, span: nat) -> (Seq<char>, Seq<char>) {
    let whole = text::dec(span);
    let part = text::dec((span - 4) as nat);
    if up {
        let last = text::fill("base + {}"@, seq![whole]);
        if pre {
            ("base + 4"@, last)
        } else {
            ("base"@, last)
        }
    } else {
        let last = text::fill("base - {}"@, seq![whole]);
        if pre {
            (last, last)
        } else {
            (text::fill("base - {}"@, seq![part]), last)
        }
    }
}

fn span_ends(up: bool, pre: bool, span: u32) -> (texts: (String, String))
    requires
        span >= 4,
    ensures
        texts.0@ == span_text(up, pre, span as nat).0,
        texts.1@ == span_text(up, pre, span as nat).1,
{
    let whole = decimal(span);
    if up {
        let last = form1("base + {}", whole.as_str());
        if pre {
            ("base + 4".to_owned(), last)
        } else {
            ("base".to_owned(), last)
        }
    } else {
        let last = form1("base - {}", whole.as_str());
        if pre {
            (form1("base - {}", whole.as_str()), last)
        } else {
            (form1("base - {}", decimal(span - 4).as_str()), last)
        }
    }
}

/// ldm and stm.
pub open spec fn block_transfer_code(out: Seq<char>, scope: Names, a: u32, op: u32) -> Code {
    let rn = (op >> 16) & 0xF;
    let writeback = arm::bit(op, 21);
    let list = op & 0xFFFF;
    let (lowest, last) = span_text(arm::bit(op, 23), arm::bit(op, 24), listed(list, 16) * 4);
    let back = seq![text::dec(rn as nat)];
    // the user bank forms, empty lists and r15 as the base are rare enough
    // to leave alone
    if arm::bit(op, 22) || listed(list, 16) == 0 || rn == 15 {
        vfp::interpret_code(out, scope, a, op)
    } else {
        let out = text::emitted(
            out,
            "    { uint32_t base = ctx->r[{}], p = {}, fin = {};"@,
            seq![text::dec(rn as nat), lowest, last],
        );
        if arm::bit(op, 20) {
            let out = if writeback && !arm::bit(list, rn) {
                text::emitted(out, "    ctx->r[{}] = fin;"@, back)
            } else {
                out
            };
            let out = list_loaded(out, list, 15);
            if !arm::bit(list, 15) {
                on(text::emitted(out, "    (void)p; (void)fin; }"@, Seq::empty()))
            } else if rn == 13 {
                off(text::emitted(out, "    RETURN_TO(mem_read32(ctx, p)); }"@, Seq::empty()))
            } else {
                off(text::emitted(out, "    JUMP_TO(mem_read32(ctx, p)); }"@, Seq::empty()))
            }
        } else {
            let out = list_stored(out, scope, a, list, rn, writeback, 16);
            let out = if writeback {
                text::emitted(out, "    ctx->r[{}] = fin;"@, back)
            } else {
                out
            };
            on(text::emitted(out, "    (void)p; (void)fin; }"@, Seq::empty()))
        }
    }
}

fn block_transfer(out: &mut String, scope: &Scope, a: u32, op: u32) -> (on: bool)
    ensures
        (Code { text: final(out)@, on }) == block_transfer_code(old(out)@, scope@, a, op),
{
    proof {
        lemma_op(op);
    }
    let rn = (op >> 16) & 0xF;
    let pre = bit_set(op, 24);
    let up = bit_set(op, 23);
    let writeback = bit_set(op, 21);
    let load = bit_set(op, 20);
    let list = op & 0xFFFF;
    let count = count_listed(list, 16);
    // the user bank forms, empty lists and r15 as the base are rare enough
    // to leave alone
    if bit_set(op, 22) || count == 0 || rn == 15 {
        return interpret(out, scope, a, op);
    }
    let (lowest, last) = span_ends(up, pre, count * 4);
    emit3(
        out,
        "    { uint32_t base = ctx->r[{}], p = {}, fin = {};",
        decimal(rn).as_str(),
        lowest.as_str(),
        last.as_str(),
    );
    if load {
        if writeback && !bit_set(list, rn) {
            emit1(out, "    ctx->r[{}] = fin;", decimal(rn).as_str());
        }
        load_list(out, list, 15);
        if bit_set(list, 15) {
            if rn == 13 {
                emit0(out, "    RETURN_TO(mem_read32(ctx, p)); }");
            } else {
                emit0(out, "    JUMP_TO(mem_read32(ctx, p)); }");
            }
            return false;
        }
    } else {
        store_list(out, scope, a, list, rn, writeback);
        if writeback {
            emit1(out, "    ctx->r[{}] = fin;", decimal(rn).as_str());
        }
    }
    emit0(out, "    (void)p; (void)fin; }");
    true
}

/// swp and swpb.
pub open spec fn swap_code(out: Seq<char>, scope: Names, a: u32, op: u32) -> Code {
    let rd = (op >> 12) & 0xF;
    let args = seq![
        scope.reg((op >> 16) & 0xF, a.wrapping_add(8)),
        scope.reg(op & 0xF, a.wrapping_add(8)),
        text::dec(rd as nat),
    ];
    if rd == 15 {
        vfp::interpret_code(out, scope, a, op)
    } else if arm::bit(op, 22) {
        on(
            text::emitted(
                out,
                "    { uint32_t address = {}, source = {}, old = mem_read8(ctx, address); mem_write8(ctx, address, (uint8_t)source); ctx->r[{}] = old; }"@,
                args,
            ),
        )
    } else {
        on(
            text::emitted(
                out,
                "    { uint32_t address = {}, source = {}, old = mem_read32(ctx, address); mem_write32(ctx, address, source); ctx->r[{}] = old; }"@,
                args,
            ),
        )
    }
}

fn swap(out: &mut String, scope: &Scope, a: u32, op: u32) -> (on: bool)
    ensures
        (Code { text: final(out)@, on }) == swap_code(old(out)@, scope@, a, op),
{
    let rd = (op >> 12) & 0xF;
    if rd == 15 {
        return interpret(out, scope, a, op);
    }
    let address = scope.reg((op >> 16) & 0xF, a.wrapping_add(8));
    let source = scope.reg(op & 0xF, a.wrapping_add(8));
    if bit_set(op, 22) {
        emit3(
            out,
            "    { uint32_t address = {}, source = {}, old = mem_read8(ctx, address); mem_write8(ctx, address, (uint8_t)source); ctx->r[{}] = old; }",
            address.as_str(),
            source.as_str(),
            decimal(rd).as_str(),
        );
    } else {
        emit3(
            out,
            "    { uint32_t address = {}, source = {}, old = mem_read32(ctx, address); mem_write32(ctx, address, source); ctx->r[{}] = old; }",
            address.as_str(),
            source.as_str(),
            decimal(rd).as_str(),
        );
    }
    true
}

/// the loads of an ldrex, as C.
pub open spec fn exclusive_load_text(size: u32, rd: u32) -> Seq<char> {
    let d = text::dec(rd as nat);
    if size == 0b01 {
        text::fill(
            "ctx->r[{}] = mem_read32(ctx, address); ctx->r[{}] = mem_read32(ctx, address + 4);"@,
            seq![d, text::dec((rd + 1) as nat)],
        )
    } else if size == 0b00 {
        text::fill("ctx->r[{}] = mem_read32(ctx, address);"@, seq![d])
    } else if size == 0b10 {
        text::fill("ctx->r[{}] = mem_read8(ctx, address);"@, seq![d])
    } else {
        text::fill("ctx->r[{}] = mem_read16(ctx, address);"@, seq![d])
    }
}

/// the stores of a strex, as C.
pub open spec fn exclusive_store_text(size: u32, rm: u32) -> Seq<char> {
    let m = text::dec(rm as nat);
    if size == 0b01 {
        text::fill(
            "mem_write32(ctx, address, ctx->r[{}]); mem_write32(ctx, address + 4, ctx->r[{}]);"@,
            seq![m, text::dec((rm + 1) as nat)],
        )
    } else if size == 0b00 {
        text::fill("mem_write32(ctx, address, ctx->r[{}]);"@, seq![m])
    } else if size == 0b10 {
        text::fill("mem_write8(ctx, address, (uint8_t)ctx->r[{}]);"@, seq![m])
    } else {
        text::fill("mem_write16(ctx, address, (uint16_t)ctx->r[{}]);"@, seq![m])
    }
}

fn exclusive_load(size: u32, rd: u32) -> (text: String)
    requires
        rd <= 15,
    ensures
        text@ == exclusive_load_text(size, rd),
{
    let d = decimal(rd);
    if size == 0b01 {
        form2(
            "ctx->r[{}] = mem_read32(ctx, address); ctx->r[{}] = mem_read32(ctx, address + 4);",
            d.as_str(),
            decimal(rd + 1).as_str(),
        )
    } else if size == 0b00 {
        form1("ctx->r[{}] = mem_read32(ctx, address);", d.as_str())
    } else if size == 0b10 {
        form1("ctx->r[{}] = mem_read8(ctx, address);", d.as_str())
    } else {
        form1("ctx->r[{}] = mem_read16(ctx, address);", d.as_str())
    }
}

fn exclusive_store(size: u32, rm: u32) -> (text: String)
    requires
        rm <= 15,
    ensures
        text@ == exclusive_store_text(size, rm),
{
    let m = decimal(rm);
    if size == 0b01 {
        form2(
            "mem_write32(ctx, address, ctx->r[{}]); mem_write32(ctx, address + 4, ctx->r[{}]);",
            m.as_str(),
            decimal(rm + 1).as_str(),
        )
    } else if size == 0b00 {
        form1("mem_write32(ctx, address, ctx->r[{}]);", m.as_str())
    } else if size == 0b10 {
        form1("mem_write8(ctx, address, (uint8_t)ctx->r[{}]);", m.as_str())
    } else {
        form1("mem_write16(ctx, address, (uint16_t)ctx->r[{}]);", m.as_str())
    }
}

/// ldrex and strex in all their sizes. a store only goes through while
/// the monitor still has its address, and a successful one clears it.
pub open spec fn exclusive_code(out: Seq<char>, scope: Names, a: u32, op: u32) -> Code {
    let rd = (op >> 12) & 0xF;
    let rm = op & 0xF;
    let size = (op >> 21) & 3;
    let load = arm::bit(op, 20);
    let address = scope.reg((op >> 16) & 0xF, a.wrapping_add(8));
    let d = text::dec(rd as nat);
    let first = if load {
        rd
    } else {
        rm
    };
    // r15 as a destination, or a pair that runs into it
    if rd == 15 || (size == 0b01 && first >= 14) {
        vfp::interpret_code(out, scope, a, op)
    } else if load {
        on(
            text::emitted(
                out,
                "    { uint32_t address = {}; ctx->exclusive = 1; ctx->exclusive_address = address; {} }"@,
                seq![address, exclusive_load_text(size, rd)],
            ),
        )
    } else {
        on(
            text::emitted(
                out,
                "    { uint32_t address = {}; if (ctx->exclusive && ctx->exclusive_address == address) { {} ctx->exclusive = 0; ctx->r[{}] = 0; } else ctx->r[{}] = 1; }"@,
                seq![address, exclusive_store_text(size, rm), d, d],
            ),
        )
    }
}

fn exclusive(out: &mut String, scope: &Scope, a: u32, op: u32) -> (on: bool)
    ensures
        (Code { text: final(out)@, on }) == exclusive_code(old(out)@, scope@, a, op),
{
    proof {
        lemma_op(op);
    }
    let rd = (op >> 12) & 0xF;
    let rm = op & 0xF;
    let size = (op >> 21) & 3;
    let load = bit_set(op, 20);
    let first = if load {
        rd
    } else {
        rm
    };
    // r15 as a destination, or a pair that runs into it
    if rd == 15 || (size == 0b01 && first >= 14) {
        return interpret(out, scope, a, op);
    }
    let address = scope.reg((op >> 16) & 0xF, a.wrapping_add(8));
    let d = decimal(rd);
    if load {
        emit2(
            out,
            "    { uint32_t address = {}; ctx->exclusive = 1; ctx->exclusive_address = address; {} }",
            address.as_str(),
            exclusive_load(size, rd).as_str(),
        );
    } else {
        emit4(
            out,
            "    { uint32_t address = {}; if (ctx->exclusive && ctx->exclusive_address == address) { {} ctx->exclusive = 0; ctx->r[{}] = 0; } else ctx->r[{}] = 1; }",
            address.as_str(),
            exclusive_store(size, rm).as_str(),
            d.as_str(),
            d.as_str(),
        );
    }
    true
}

/// mul and mla.
pub open spec fn multiply_code(out: Seq<char>, scope: Names, a: u32, op: u32) -> Code {
    let rd = (op >> 16) & 0xF;
    let product = text::fill(
        "{} * {}"@,
        seq![
            scope.reg(op & 0xF, a.wrapping_add(8)),
            scope.reg((op >> 8) & 0xF, a.wrapping_add(8)),
        ],
    );
    let sum = if arm::bit(op, 21) {
        text::fill(" + {}"@, seq![scope.reg((op >> 12) & 0xF, a.wrapping_add(8))])
    } else {
        ""@
    };
    let flags = if arm::bit(op, 20) {
        " ctx->n = r >> 31; ctx->z = r == 0;"@
    } else {
        ""@
    };
    if rd == 15 {
        vfp::interpret_code(out, scope, a, op)
    } else {
        on(
            text::emitted(
                out,
                "    { uint32_t r = {}{}; ctx->r[{}] = r;{} }"@,
                seq![product, sum, text::dec(rd as nat), flags],
            ),
        )
    }
}

fn multiply(out: &mut String, scope: &Scope, a: u32, op: u32) -> (on: bool)
    ensures
        (Code { text: final(out)@, on }) == multiply_code(old(out)@, scope@, a, op),
{
    let rd = (op >> 16) & 0xF;
    if rd == 15 {
        return interpret(out, scope, a, op);
    }
    let product = form2(
        "{} * {}",
        scope.reg(op & 0xF, a.wrapping_add(8)).as_str(),
        scope.reg((op >> 8) & 0xF, a.wrapping_add(8)).as_str(),
    );
    let sum = if bit_set(op, 21) {
        form1(" + {}", scope.reg((op >> 12) & 0xF, a.wrapping_add(8)).as_str())
    } else {
        "".to_owned()
    };
    let flags = if bit_set(op, 20) {
        " ctx->n = r >> 31; ctx->z = r == 0;"
    } else {
        ""
    };
    emit4(
        out,
        "    { uint32_t r = {}{}; ctx->r[{}] = r;{} }",
        product.as_str(),
        sum.as_str(),
        decimal(rd).as_str(),
        flags,
    );
    true
}

/// what a long multiply computes, as C.
pub open spec fn long_text(kind: u32, m: Seq<char>, s: Seq<char>, hi: u32, lo: u32) -> Seq<char> {
    let pair = text::fill(
        "((uint64_t)ctx->r[{}] << 32 | ctx->r[{}])"@,
        seq![text::dec(hi as nat), text::dec(lo as nat)],
    );
    if kind == 0b010 {
        text::fill(
            "(uint64_t){} * {} + ctx->r[{}] + ctx->r[{}]"@,
            seq![m, s, text::dec(lo as nat), text::dec(hi as nat)],
        )
    } else if kind == 0b100 {
        text::fill("(uint64_t){} * {}"@, seq![m, s])
    } else if kind == 0b101 {
        text::fill("(uint64_t){} * {} + {}"@, seq![m, s, pair])
    } else if kind == 0b110 {
        text::fill("(uint64_t)((int64_t)(int32_t){} * (int32_t){})"@, seq![m, s])
    } else {
        text::fill("(uint64_t)((int64_t)(int32_t){} * (int32_t){}) + {}"@, seq![m, s, pair])
    }
}

fn long(kind: u32, m: &str, s: &str, hi: u32, lo: u32) -> (text: String)
    ensures
        text@ == long_text(kind, m@, s@, hi, lo),
{
    let high = decimal(hi);
    let low = decimal(lo);
    let pair = form2("((uint64_t)ctx->r[{}] << 32 | ctx->r[{}])", high.as_str(), low.as_str());
    if kind == 0b010 {
        form4("(uint64_t){} * {} + ctx->r[{}] + ctx->r[{}]", m, s, low.as_str(), high.as_str())
    } else if kind == 0b100 {
        form2("(uint64_t){} * {}", m, s)
    } else if kind == 0b101 {
        form3("(uint64_t){} * {} + {}", m, s, pair.as_str())
    } else if kind == 0b110 {
        form2("(uint64_t)((int64_t)(int32_t){} * (int32_t){})", m, s)
    } else {
        form3("(uint64_t)((int64_t)(int32_t){} * (int32_t){}) + {}", m, s, pair.as_str())
    }
}

/// umull, umlal, smull, smlal and umaal.
pub open spec fn multiply_long_code(out: Seq<char>, scope: Names, a: u32, op: u32) -> Code {
    let hi = (op >> 16) & 0xF;
    let lo = (op >> 12) & 0xF;
    let m = scope.reg(op & 0xF, a.wrapping_add(8));
    let s = scope.reg((op >> 8) & 0xF, a.wrapping_add(8));
    let kind = (op >> 21) & 7;
    let flags = if kind != 0b010 && arm::bit(op, 20) {
        " ctx->n = r >> 63; ctx->z = r == 0;"@
    } else {
        ""@
    };
    if hi == 15 || lo == 15 {
        vfp::interpret_code(out, scope, a, op)
    } else {
        on(
            text::emitted(
                out,
                "    { uint64_t r = {}; ctx->r[{}] = (uint32_t)r; ctx->r[{}] = (uint32_t)(r >> 32);{} }"@,
                seq![
                    long_text(kind, m, s, hi, lo),
                    text::dec(lo as nat),
                    text::dec(hi as nat),
                    flags,
                ],
            ),
        )
    }
}

fn multiply_long(out: &mut String, scope: &Scope, a: u32, op: u32) -> (on: bool)
    ensures
        (Code { text: final(out)@, on }) == multiply_long_code(old(out)@, scope@, a, op),
{
    let hi = (op >> 16) & 0xF;
    let lo = (op >> 12) & 0xF;
    if hi == 15 || lo == 15 {
        return interpret(out, scope, a, op);
    }
    let m = scope.reg(op & 0xF, a.wrapping_add(8));
    let s = scope.reg((op >> 8) & 0xF, a.wrapping_add(8));
    let kind = (op >> 21) & 7;
    let flags = if kind != 0b010 && bit_set(op, 20) {
        " ctx->n = r >> 63; ctx->z = r == 0;"
    } else {
        ""
    };
    emit4(
        out,
        "    { uint64_t r = {}; ctx->r[{}] = (uint32_t)r; ctx->r[{}] = (uint32_t)(r >> 32);{} }",
        long(kind, m.as_str(), s.as_str(), hi, lo).as_str(),
        decimal(lo).as_str(),
        decimal(hi).as_str(),
        flags,
    );
    true
}

/// smlaxy, smlawy, smulwy, smlalxy and smulxy. the 32 bit accumulates
/// wrap and set q when they overflow.
pub open spec fn halfword_multiply_code(out: Seq<char>, scope: Names, a: u32, op: u32) -> Code {
    let rd = (op >> 16) & 0xF;
    let rn = (op >> 12) & 0xF;
    let kind = (op >> 21) & 3;
    let d = text::dec(rd as nat);
    let low = text::dec(rn as nat);
    let x = text::dec(((op >> 5) & 1) as nat);
    let y = text::dec(((op >> 6) & 1) as nat);
    let m = scope.reg(op & 0xF, a.wrapping_add(8));
    let s = scope.reg((op >> 8) & 0xF, a.wrapping_add(8));
    let n = scope.reg(rn, a.wrapping_add(8));
    if rd == 15 || (kind == 0b10 && rn == 15) {
        vfp::interpret_code(out, scope, a, op)
    } else if kind == 0b00 {
        on(
            text::emitted(
                out,
                "    ctx->r[{}] = accumulate(ctx, HALF({}, {}) * HALF({}, {}) + (int32_t){});"@,
                seq![d, m, x, s, y, n],
            ),
        )
    } else if kind == 0b01 {
        let product = text::fill(
            "((int64_t)(int32_t){} * HALF({}, {})) >> 16"@,
            seq![m, s, y],
        );
        on(
            if (op >> 5) & 1 != 0 {
                text::emitted(out, "    ctx->r[{}] = (uint32_t)({});"@, seq![d, product])
            } else {
                text::emitted(
                    out,
                    "    ctx->r[{}] = accumulate(ctx, ({}) + (int32_t){});"@,
                    seq![d, product, n],
                )
            },
        )
    } else if kind == 0b10 {
        on(
            text::emitted(
                out,
                "    { uint64_t r = ((uint64_t)ctx->r[{}] << 32 | ctx->r[{}]) + (uint64_t)(HALF({}, {}) * HALF({}, {})); ctx->r[{}] = (uint32_t)r; ctx->r[{}] = (uint32_t)(r >> 32); }"@,
                seq![d, low, m, x, s, y, low, d],
            ),
        )
    } else {
        on(
            text::emitted(
                out,
                "    ctx->r[{}] = (uint32_t)(HALF({}, {}) * HALF({}, {}));"@,
                seq![d, m, x, s, y],
            ),
        )
    }
}

fn halfword_multiply(out: &mut String, scope: &Scope, a: u32, op: u32) -> (on: bool)
    ensures
        (Code { text: final(out)@, on }) == halfword_multiply_code(old(out)@, scope@, a, op),
{
    let rd = (op >> 16) & 0xF;
    let rn = (op >> 12) & 0xF;
    let kind = (op >> 21) & 3;
    if rd == 15 || (kind == 0b10 && rn == 15) {
        return interpret(out, scope, a, op);
    }
    let d = decimal(rd);
    let low = decimal(rn);
    let x = decimal((op >> 5) & 1);
    let y = decimal((op >> 6) & 1);
    let m = scope.reg(op & 0xF, a.wrapping_add(8));
    let s = scope.reg((op >> 8) & 0xF, a.wrapping_add(8));
    let n = scope.reg(rn, a.wrapping_add(8));
    if kind == 0b00 {
        emit6(
            out,
            "    ctx->r[{}] = accumulate(ctx, HALF({}, {}) * HALF({}, {}) + (int32_t){});",
            d.as_str(),
            m.as_str(),
            x.as_str(),
            s.as_str(),
            y.as_str(),
            n.as_str(),
        );
    } else if kind == 0b01 {
        let product = form3(
            "((int64_t)(int32_t){} * HALF({}, {})) >> 16",
            m.as_str(),
            s.as_str(),
            y.as_str(),
        );
        if (op >> 5) & 1 != 0 {
            emit2(out, "    ctx->r[{}] = (uint32_t)({});", d.as_str(), product.as_str());
        } else {
            emit3(
                out,
                "    ctx->r[{}] = accumulate(ctx, ({}) + (int32_t){});",
                d.as_str(),
                product.as_str(),
                n.as_str(),
            );
        }
    } else if kind == 0b10 {
        emit8(
            out,
            "    { uint64_t r = ((uint64_t)ctx->r[{}] << 32 | ctx->r[{}]) + (uint64_t)(HALF({}, {}) * HALF({}, {})); ctx->r[{}] = (uint32_t)r; ctx->r[{}] = (uint32_t)(r >> 32); }",
            d.as_str(),
            low.as_str(),
            m.as_str(),
            x.as_str(),
            s.as_str(),
            y.as_str(),
            low.as_str(),
            d.as_str(),
        );
    } else {
        emit5(
            out,
            "    ctx->r[{}] = (uint32_t)(HALF({}, {}) * HALF({}, {}));",
            d.as_str(),
            m.as_str(),
            x.as_str(),
            s.as_str(),
            y.as_str(),
        );
    }
    true
}

/// what a saturating instruction computes, as C.
pub open spec fn saturated_text(kind: u32, m: Seq<char>, n: Seq<char>) -> Seq<char> {
    if kind == 0b00 {
        text::fill("saturate(ctx, (int64_t)(int32_t){} + (int32_t){})"@, seq![m, n])
    } else if kind == 0b01 {
        text::fill("saturate(ctx, (int64_t)(int32_t){} - (int32_t){})"@, seq![m, n])
    } else if kind == 0b10 {
        text::fill(
            "saturate(ctx, (int64_t)(int32_t){} + (int32_t)saturate(ctx, (int64_t)(int32_t){} * 2))"@,
            seq![m, n],
        )
    } else {
        text::fill(
            "saturate(ctx, (int64_t)(int32_t){} - (int32_t)saturate(ctx, (int64_t)(int32_t){} * 2))"@,
            seq![m, n],
        )
    }
}

fn saturated(kind: u32, m: &str, n: &str) -> (text: String)
    ensures
        text@ == saturated_text(kind, m@, n@),
{
    if kind == 0b00 {
        form2("saturate(ctx, (int64_t)(int32_t){} + (int32_t){})", m, n)
    } else if kind == 0b01 {
        form2("saturate(ctx, (int64_t)(int32_t){} - (int32_t){})", m, n)
    } else if kind == 0b10 {
        form2(
            "saturate(ctx, (int64_t)(int32_t){} + (int32_t)saturate(ctx, (int64_t)(int32_t){} * 2))",
            m,
            n,
        )
    } else {
        form2(
            "saturate(ctx, (int64_t)(int32_t){} - (int32_t)saturate(ctx, (int64_t)(int32_t){} * 2))",
            m,
            n,
        )
    }
}

/// qadd, qsub, qdadd and qdsub.
pub open spec fn saturating_code(out: Seq<char>, scope: Names, a: u32, op: u32) -> Code {
    let rd = (op >> 12) & 0xF;
    let m = scope.reg(op & 0xF, a.wrapping_add(8));
    let n = scope.reg((op >> 16) & 0xF, a.wrapping_add(8));
    if rd == 15 {
        vfp::interpret_code(out, scope, a, op)
    } else {
        on(
            text::emitted(
                out,
                "    ctx->r[{}] = {};"@,
                seq![text::dec(rd as nat), saturated_text((op >> 21) & 3, m, n)],
            ),
        )
    }
}

fn saturating(out: &mut String, scope: &Scope, a: u32, op: u32) -> (on: bool)
    ensures
        (Code { text: final(out)@, on }) == saturating_code(old(out)@, scope@, a, op),
{
    let rd = (op >> 12) & 0xF;
    if rd == 15 {
        return interpret(out, scope, a, op);
    }
    let m = scope.reg(op & 0xF, a.wrapping_add(8));
    let n = scope.reg((op >> 16) & 0xF, a.wrapping_add(8));
    emit2(
        out,
        "    ctx->r[{}] = {};",
        decimal(rd).as_str(),
        saturated((op >> 21) & 3, m.as_str(), n.as_str()).as_str(),
    );
    true
}

/// counting leading zeros.
pub open spec fn clz_code(out: Seq<char>, scope: Names, a: u32, op: u32) -> Code {
    let rd = (op >> 12) & 0xF;
    if rd == 15 {
        vfp::interpret_code(out, scope, a, op)
    } else {
        on(
            text::emitted(
                out,
                "    { uint32_t m = {}; ctx->r[{}] = m ? __builtin_clz(m) : 32; }"@,
                seq![scope.reg(op & 0xF, a.wrapping_add(8)), text::dec(rd as nat)],
            ),
        )
    }
}

fn clz(out: &mut String, scope: &Scope, a: u32, op: u32) -> (on: bool)
    ensures
        (Code { text: final(out)@, on }) == clz_code(old(out)@, scope@, a, op),
{
    let rd = (op >> 12) & 0xF;
    if rd == 15 {
        return interpret(out, scope, a, op);
    }
    emit2(
        out,
        "    { uint32_t m = {}; ctx->r[{}] = m ? __builtin_clz(m) : 32; }",
        scope.reg(op & 0xF, a.wrapping_add(8)).as_str(),
        decimal(rd).as_str(),
    );
    true
}

/// bx and blx through a register.
pub open spec fn branch_exchange_code(out: Seq<char>, scope: Names, a: u32, op: u32) -> Code {
    let rm = op & 0xF;
    let next = scope.at(a.wrapping_add(4));
    if (op >> 4) & 0xF == 0b0011 {
        let out = text::emitted(
            out,
            "    { uint32_t v = {}; ctx->r[14] = {}; ctx->thumb = v & 1; ctx->r[15] = v & (ctx->thumb ? ~1u : ~3u); }"@,
            seq![scope.reg(rm, a.wrapping_add(8)), next],
        );
        let out = text::emitted(out, "    CALL(recomp_call);"@, Seq::empty());
        on(text::emitted(out, "    RETURNED({});"@, seq![next]))
    } else if rm == 14 {
        off(text::emitted(out, "    RETURN_TO(ctx->r[14]);"@, Seq::empty()))
    } else {
        off(text::emitted(out, "    JUMP_TO({});"@, seq![scope.reg(rm, a.wrapping_add(8))]))
    }
}

fn branch_exchange(out: &mut String, scope: &Scope, a: u32, op: u32) -> (on: bool)
    ensures
        (Code { text: final(out)@, on }) == branch_exchange_code(old(out)@, scope@, a, op),
{
    let rm = op & 0xF;
    if (op >> 4) & 0xF == 0b0011 {
        let next = scope.at(a.wrapping_add(4));
        emit2(
            out,
            "    { uint32_t v = {}; ctx->r[14] = {}; ctx->thumb = v & 1; ctx->r[15] = v & (ctx->thumb ? ~1u : ~3u); }",
            scope.reg(rm, a.wrapping_add(8)).as_str(),
            next.as_str(),
        );
        emit0(out, "    CALL(recomp_call);");
        emit1(out, "    RETURNED({});", next.as_str());
        return true;
    }
    if rm == 14 {
        emit0(out, "    RETURN_TO(ctx->r[14]);");
    } else {
        emit1(out, "    JUMP_TO({});", scope.reg(rm, a.wrapping_add(8)).as_str());
    }
    false
}

/// the cond 0xF space.
pub open spec fn unconditional_code(out: Seq<char>, scope: Names, a: u32, op: u32) -> Code {
    if op & 0xFE00_0000 == 0xFA00_0000 {
        // blx to Thumb
        let target = arm::displaced(
            a.wrapping_add(8),
            arm::branch_offset(op) + 2 * ((op >> 24) & 1),
        );
        codegen::call_code(out, scope, a.wrapping_add(4), target & !1, true)
    } else if op & 0xFFF0_00F0 == 0xF570_0010 {
        // clrex
        on(text::emitted(out, "    ctx->exclusive = 0;"@, Seq::empty()))
    } else if (op >> 25) & 7 == 0b010 || (op >> 25) & 7 == 0b011 {
        // pld and the barriers do nothing here
        on(out)
    } else {
        vfp::interpret_code(out, scope, a, op)
    }
}

fn unconditional(out: &mut String, scope: &Scope, a: u32, op: u32) -> (on: bool)
    ensures
        (Code { text: final(out)@, on }) == unconditional_code(old(out)@, scope@, a, op),
{
    if op & 0xFE00_0000 == 0xFA00_0000 {
        // blx to Thumb
        let target = arm::exchange_target(op, a);
        return call(out, scope, a.wrapping_add(4), target & !1, true);
    }
    if op & 0xFFF0_00F0 == 0xF570_0010 {
        // clrex
        emit0(out, "    ctx->exclusive = 0;");
        return true;
    }
    if (op >> 25) & 7 == 0b010 || (op >> 25) & 7 == 0b011 {
        // pld and the barriers do nothing here
        return true;
    }
    interpret(out, scope, a, op)
}

/// the ARMv6 media instructions, in the interpreter's order.
pub open spec fn media_code(out: Seq<char>, scope: Names, a: u32, op: u32) -> Code {
    let op1 = (op >> 20) & 0x1F;
    let op2 = (op >> 5) & 7;
    if op1 >> 3 == 0b00 {
        parallel_code(out, scope, a, op, op1, op2)
    } else if op1 >> 3 == 0b01 {
        pack_saturate_extend_code(out, scope, a, op, op1, op2)
    } else if op1 >> 3 == 0b10 {
        dual_multiply_code(out, scope, a, op, op1)
    } else if op1 == 0b11000 && op2 == 0 {
        usad8_code(out, scope, a, op)
    } else {
        vfp::interpret_code(out, scope, a, op)
    }
}

fn media(out: &mut String, scope: &Scope, a: u32, op: u32) -> (on: bool)
    ensures
        (Code { text: final(out)@, on }) == media_code(old(out)@, scope@, a, op),
{
    let op1 = (op >> 20) & 0x1F;
    let op2 = (op >> 5) & 7;
    if op1 >> 3 == 0b00 {
        parallel(out, scope, a, op, op1, op2)
    } else if op1 >> 3 == 0b01 {
        pack_saturate_extend(out, scope, a, op, op1, op2)
    } else if op1 >> 3 == 0b10 {
        dual_multiply(out, scope, a, op, op1)
    } else if op1 == 0b11000 && op2 == 0 {
        usad8(out, scope, a, op)
    } else {
        interpret(out, scope, a, op)
    }
}

/// the parallel adds and subtracts, sadd16 to uhsub8.
pub open spec fn parallel_code(
    out: Seq<char>,
    scope: Names,
    a: u32,
    op: u32,
    op1: u32,
    op2: u32,
) -> Code {
    let rd = (op >> 12) & 0xF;
    if rd == 15 || op1 & 3 == 0 || op2 == 5 || op2 == 6 {
        vfp::interpret_code(out, scope, a, op)
    } else {
        on(
            text::emitted(
                out,
                "    ctx->r[{}] = media_parallel(ctx, {}, {}, {}, {});"@,
                seq![
                    text::dec(rd as nat),
                    text::dec(op1 as nat),
                    text::dec(op2 as nat),
                    scope.reg((op >> 16) & 0xF, a.wrapping_add(8)),
                    scope.reg(op & 0xF, a.wrapping_add(8)),
                ],
            ),
        )
    }
}

fn parallel(out: &mut String, scope: &Scope, a: u32, op: u32, op1: u32, op2: u32) -> (on: bool)
    ensures
        (Code { text: final(out)@, on }) == parallel_code(old(out)@, scope@, a, op, op1, op2),
{
    let rd = (op >> 12) & 0xF;
    if rd == 15 || op1 & 3 == 0 || op2 == 5 || op2 == 6 {
        return interpret(out, scope, a, op);
    }
    let n = scope.reg((op >> 16) & 0xF, a.wrapping_add(8));
    let m = scope.reg(op & 0xF, a.wrapping_add(8));
    emit5(
        out,
        "    ctx->r[{}] = media_parallel(ctx, {}, {}, {}, {});",
        decimal(rd).as_str(),
        decimal(op1).as_str(),
        decimal(op2).as_str(),
        n.as_str(),
        m.as_str(),
    );
    true
}

/// x extended, and whether that is two halves at once.
pub open spec fn extended_text(kind: u32, x: Seq<char>) -> Option<(Seq<char>, bool)> {
    if kind == 0b000 {
        Some(
            (
                text::fill(
                    "(((uint32_t)(int32_t)(int8_t){} & 0xFFFF) | (((uint32_t)(int32_t)(int8_t)({} >> 16) & 0xFFFF) << 16))"@,
                    seq![x, x],
                ),
                true,
            ),
        )
    } else if kind == 0b010 {
        Some((text::fill("(uint32_t)(int32_t)(int8_t){}"@, seq![x]), false))
    } else if kind == 0b011 {
        Some((text::fill("(uint32_t)(int32_t)(int16_t){}"@, seq![x]), false))
    } else if kind == 0b100 {
        Some((text::fill("({} & 0x00FF00FFu)"@, seq![x]), true))
    } else if kind == 0b110 {
        Some((text::fill("({} & 0xFF)"@, seq![x]), false))
    } else if kind == 0b111 {
        Some((text::fill("({} & 0xFFFF)"@, seq![x]), false))
    } else {
        None
    }
}

fn extended(kind: u32, x: &str) -> (found: Option<(String, bool)>)
    ensures
        found is Some <==> extended_text(kind, x@) is Some,
        found matches Some((text, packed)) ==> {
            &&& text@ == (extended_text(kind, x@)->0).0
            &&& packed == (extended_text(kind, x@)->0).1
        },
{
    if kind == 0b000 {
        Some(
            (
                form2(
                    "(((uint32_t)(int32_t)(int8_t){} & 0xFFFF) | (((uint32_t)(int32_t)(int8_t)({} >> 16) & 0xFFFF) << 16))",
                    x,
                    x,
                ),
                true,
            ),
        )
    } else if kind == 0b010 {
        Some((form1("(uint32_t)(int32_t)(int8_t){}", x), false))
    } else if kind == 0b011 {
        Some((form1("(uint32_t)(int32_t)(int16_t){}", x), false))
    } else if kind == 0b100 {
        Some((form1("({} & 0x00FF00FFu)", x), true))
    } else if kind == 0b110 {
        Some((form1("({} & 0xFF)", x), false))
    } else if kind == 0b111 {
        Some((form1("({} & 0xFFFF)", x), false))
    } else {
        None
    }
}

/// the extensions, of a register rotated first and added to another one.
pub open spec fn extend_text(scope: Names, a: u32, op: u32, op1: u32) -> Option<Seq<char>> {
    let rn = (op >> 16) & 0xF;
    let m = scope.reg(op & 0xF, a.wrapping_add(8));
    let rotate = ((op >> 10) & 3) * 8;
    let x = if rotate == 0 {
        m
    } else {
        text::fill("ror32({}, {})"@, seq![m, text::dec(rotate as nat)])
    };
    match extended_text(op1 & 7, x) {
        None => None,
        Some((extended, packed)) => Some(
            if rn == 15 {
                extended
            } else if packed {
                text::fill("add_halves(ctx->r[{}], {})"@, seq![text::dec(rn as nat), extended])
            } else {
                text::fill("ctx->r[{}] + {}"@, seq![text::dec(rn as nat), extended])
            },
        ),
    }
}

fn extend(scope: &Scope, a: u32, op: u32, op1: u32) -> (value: Option<String>)
    ensures
        value is Some <==> extend_text(scope@, a, op, op1) is Some,
        value matches Some(text) ==> text@ == extend_text(scope@, a, op, op1)->0,
{
    proof {
        lemma_op(op);
    }
    let rn = (op >> 16) & 0xF;
    let m = scope.reg(op & 0xF, a.wrapping_add(8));
    let rotate = ((op >> 10) & 3) * 8;
    let x = if rotate == 0 {
        m
    } else {
        form2("ror32({}, {})", m.as_str(), decimal(rotate).as_str())
    };
    match extended(op1 & 7, x.as_str()) {
        None => None,
        Some((extended, packed)) => Some(
            if rn == 15 {
                extended
            } else if packed {
                form2(
                    "add_halves(ctx->r[{}], {})",
                    decimal(rn).as_str(),
                    extended.as_str(),
                )
            } else {
                form2("ctx->r[{}] + {}", decimal(rn).as_str(), extended.as_str())
            },
        ),
    }
}

/// the amount of an arithmetic shift right, where none stands for the most.
pub open spec fn right_shift(shift: u32) -> u32 {
    if shift == 0 {
        31
    } else {
        shift
    }
}

/// pkhbt and pkhtb.
pub open spec fn pack_text(op: u32, n: Seq<char>, m: Seq<char>) -> Seq<char> {
    let shift = (op >> 7) & 0x1F;
    if arm::bit(op, 6) {
        text::fill(
            "((uint32_t)((int32_t){} >> {}) & 0xFFFF) | ({} & 0xFFFF0000u)"@,
            seq![m, text::dec(right_shift(shift) as nat), n],
        )
    } else {
        text::fill(
            "({} & 0xFFFF) | (({} << {}) & 0xFFFF0000u)"@,
            seq![n, m, text::dec(shift as nat)],
        )
    }
}

fn pack(op: u32, n: &str, m: &str) -> (text: String)
    ensures
        text@ == pack_text(op, n@, m@),
{
    let shift = (op >> 7) & 0x1F;
    if bit_set(op, 6) {
        let amount = if shift == 0 {
            31
        } else {
            shift
        };
        form3(
            "((uint32_t)((int32_t){} >> {}) & 0xFFFF) | ({} & 0xFFFF0000u)",
            m,
            decimal(amount).as_str(),
            n,
        )
    } else {
        form3("({} & 0xFFFF) | (({} << {}) & 0xFFFF0000u)", n, m, decimal(shift).as_str())
    }
}

/// 1 for the unsigned saturations and 0 for the others.
pub open spec fn unsigned_text(unsigned: bool) -> Seq<char> {
    if unsigned {
        "1"@
    } else {
        "0"@
    }
}

fn unsigned_name(unsigned: bool) -> (name: &'static str)
    ensures
        name@ == unsigned_text(unsigned),
{
    if unsigned {
        "1"
    } else {
        "0"
    }
}

/// the bits a saturation leaves, one more for the sign.
pub open spec fn saturation_bits(field: u32, unsigned: bool) -> nat {
    if unsigned {
        field as nat
    } else {
        field as nat + 1
    }
}

/// ssat and usat, of a value shifted first.
pub open spec fn saturate_text(op: u32, unsigned: bool, m: Seq<char>) -> Seq<char> {
    let shift = (op >> 7) & 0x1F;
    let shifted = if arm::bit(op, 6) {
        text::fill(
            "(int64_t)((int32_t){} >> {})"@,
            seq![m, text::dec(right_shift(shift) as nat)],
        )
    } else {
        text::fill("(int64_t)(int32_t)({} << {})"@, seq![m, text::dec(shift as nat)])
    };
    text::fill(
        "media_saturate(ctx, {}, {}, {})"@,
        seq![
            shifted,
            text::dec(saturation_bits((op >> 16) & 0x1F, unsigned)),
            unsigned_text(unsigned),
        ],
    )
}

fn saturate(op: u32, unsigned: bool, m: &str) -> (text: String)
    ensures
        text@ == saturate_text(op, unsigned, m@),
{
    proof {
        lemma_op(op);
    }
    let shift = (op >> 7) & 0x1F;
    let shifted = if bit_set(op, 6) {
        let amount = if shift == 0 {
            31
        } else {
            shift
        };
        form2("(int64_t)((int32_t){} >> {})", m, decimal(amount).as_str())
    } else {
        form2("(int64_t)(int32_t)({} << {})", m, decimal(shift).as_str())
    };
    let field = (op >> 16) & 0x1F;
    let bits = if unsigned {
        field
    } else {
        field + 1
    };
    form3(
        "media_saturate(ctx, {}, {}, {})",
        shifted.as_str(),
        decimal(bits).as_str(),
        unsigned_name(unsigned),
    )
}

/// what the packing, the extensions, sel, the reversals and the saturations
/// compute, as C, but for what is left to the interpreter.
pub open spec fn packed_text(scope: Names, a: u32, op: u32, op1: u32, op2: u32) -> Option<
    Seq<char>,
> {
    let n = scope.reg((op >> 16) & 0xF, a.wrapping_add(8));
    let m = scope.reg(op & 0xF, a.wrapping_add(8));
    let kind = op1 & 7;
    let unsigned = op1 & 0b100 != 0;
    if kind == 0b000 && op2 & 1 == 0 {
        Some(pack_text(op, n, m))
    } else if op2 == 0b011 {
        extend_text(scope, a, op, op1)
    } else if kind == 0b000 && op2 == 0b101 {
        Some(text::fill("media_select(ctx, {}, {})"@, seq![n, m]))
    } else if kind == 0b011 && op2 == 0b001 {
        Some(text::fill("__builtin_bswap32({})"@, seq![m]))
    } else if kind == 0b011 && op2 == 0b101 {
        Some(
            text::fill(
                "((({}) & 0x00FF00FFu) << 8) | ((({}) & 0xFF00FF00u) >> 8)"@,
                seq![m, m],
            ),
        )
    } else if kind == 0b111 && op2 == 0b001 {
        Some(text::fill("reverse_bits({})"@, seq![m]))
    } else if kind == 0b111 && op2 == 0b101 {
        Some(
            text::fill(
                "(uint32_t)(int32_t)(int16_t)(((({}) & 0xFF) << 8) | ((({}) >> 8) & 0xFF))"@,
                seq![m, m],
            ),
        )
    } else if (kind == 0b010 || kind == 0b110) && op2 == 0b001 {
        // ssat16 and usat16
        Some(
            text::fill(
                "media_saturate16(ctx, {}, {}, {})"@,
                seq![
                    m,
                    text::dec(saturation_bits((op >> 16) & 0xF, unsigned)),
                    unsigned_text(unsigned),
                ],
            ),
        )
    } else if op2 & 1 == 0 {
        Some(saturate_text(op, unsigned, m))
    } else {
        None
    }
}

fn packed(scope: &Scope, a: u32, op: u32, op1: u32, op2: u32) -> (value: Option<String>)
    ensures
        value is Some <==> packed_text(scope@, a, op, op1, op2) is Some,
        value matches Some(text) ==> text@ == packed_text(scope@, a, op, op1, op2)->0,
{
    proof {
        lemma_op(op);
    }
    let n = scope.reg((op >> 16) & 0xF, a.wrapping_add(8));
    let m = scope.reg(op & 0xF, a.wrapping_add(8));
    let kind = op1 & 7;
    let unsigned = op1 & 0b100 != 0;
    if kind == 0b000 && op2 & 1 == 0 {
        Some(pack(op, n.as_str(), m.as_str()))
    } else if op2 == 0b011 {
        extend(scope, a, op, op1)
    } else if kind == 0b000 && op2 == 0b101 {
        Some(form2("media_select(ctx, {}, {})", n.as_str(), m.as_str()))
    } else if kind == 0b011 && op2 == 0b001 {
        Some(form1("__builtin_bswap32({})", m.as_str()))
    } else if kind == 0b011 && op2 == 0b101 {
        Some(
            form2(
                "((({}) & 0x00FF00FFu) << 8) | ((({}) & 0xFF00FF00u) >> 8)",
                m.as_str(),
                m.as_str(),
            ),
        )
    } else if kind == 0b111 && op2 == 0b001 {
        Some(form1("reverse_bits({})", m.as_str()))
    } else if kind == 0b111 && op2 == 0b101 {
        Some(
            form2(
                "(uint32_t)(int32_t)(int16_t)(((({}) & 0xFF) << 8) | ((({}) >> 8) & 0xFF))",
                m.as_str(),
                m.as_str(),
            ),
        )
    } else if (kind == 0b010 || kind == 0b110) && op2 == 0b001 {
        // ssat16 and usat16
        let field = (op >> 16) & 0xF;
        let bits = if unsigned {
            field
        } else {
            field + 1
        };
        Some(
            form3(
                "media_saturate16(ctx, {}, {}, {})",
                m.as_str(),
                decimal(bits).as_str(),
                unsigned_name(unsigned),
            ),
        )
    } else if op2 & 1 == 0 {
        Some(saturate(op, unsigned, m.as_str()))
    } else {
        None
    }
}

/// packing, the extensions, sel, the reversals and the saturations.
pub open spec fn pack_saturate_extend_code(
    out: Seq<char>,
    scope: Names,
    a: u32,
    op: u32,
    op1: u32,
    op2: u32,
) -> Code {
    let rd = (op >> 12) & 0xF;
    if rd == 15 {
        vfp::interpret_code(out, scope, a, op)
    } else {
        match packed_text(scope, a, op, op1, op2) {
            Some(value) => on(
                text::emitted(out, "    ctx->r[{}] = {};"@, seq![text::dec(rd as nat), value]),
            ),
            None => vfp::interpret_code(out, scope, a, op),
        }
    }
}

fn pack_saturate_extend(out: &mut String, scope: &Scope, a: u32, op: u32, op1: u32, op2: u32) -> (on:
    bool)
    ensures
        (Code { text: final(out)@, on }) == pack_saturate_extend_code(
            old(out)@,
            scope@,
            a,
            op,
            op1,
            op2,
        ),
{
    let rd = (op >> 12) & 0xF;
    if rd == 15 {
        return interpret(out, scope, a, op);
    }
    match packed(scope, a, op, op1, op2) {
        Some(value) => {
            emit2(out, "    ctx->r[{}] = {};", decimal(rd).as_str(), value.as_str());
            true
        },
        None => interpret(out, scope, a, op),
    }
}

/// smlad, smuad, smlsd, smusd, smlald, smlsld, smmul, smmla and smmls.
pub open spec fn dual_multiply_code(
    out: Seq<char>,
    scope: Names,
    a: u32,
    op: u32,
    op1: u32,
) -> Code {
    let rd = (op >> 16) & 0xF;
    let ra = (op >> 12) & 0xF;
    let d = text::dec(rd as nat);
    let acc = text::dec(ra as nat);
    let m = scope.reg(op & 0xF, a.wrapping_add(8));
    let s = scope.reg((op >> 8) & 0xF, a.wrapping_add(8));
    let sign = sign_text(!arm::bit(op, 6));
    // bit 5 swaps the halves of the second operand
    let b = if arm::bit(op, 5) {
        text::fill("ror32({}, 16)"@, seq![s])
    } else {
        s
    };
    let dual = text::fill(
        "((int64_t)(int16_t){} * (int16_t){} {} (int64_t)(int16_t)({} >> 16) * (int16_t)({} >> 16))"@,
        seq![m, b, sign, m, b],
    );
    if rd == 15 || (op1 == 0b10100 && ra == 15) {
        vfp::interpret_code(out, scope, a, op)
    } else if op1 == 0b10000 {
        let sum = if ra == 15 {
            dual
        } else {
            text::fill("{} + (int32_t)ctx->r[{}]"@, seq![dual, acc])
        };
        on(text::emitted(out, "    ctx->r[{}] = accumulate(ctx, {});"@, seq![d, sum]))
    } else if op1 == 0b10100 {
        on(
            text::emitted(
                out,
                "    { uint64_t r = ((uint64_t)ctx->r[{}] << 32 | ctx->r[{}]) + (uint64_t){}; ctx->r[{}] = (uint32_t)r; ctx->r[{}] = (uint32_t)(r >> 32); }"@,
                seq![d, acc, dual, acc, d],
            ),
        )
    } else if op1 == 0b10101 {
        // the top of a full 64 bit product, bit 5 rounding it
        let product = text::fill(
            "(uint64_t)((int64_t)(int32_t){} * (int32_t){})"@,
            seq![m, s],
        );
        let start = if ra == 15 {
            "0"@
        } else {
            text::fill("((uint64_t)ctx->r[{}] << 32)"@, seq![acc])
        };
        let round = if arm::bit(op, 5) {
            " + 0x80000000u"@
        } else {
            ""@
        };
        on(
            text::emitted(
                out,
                "    ctx->r[{}] = (uint32_t)(({} {} {}{}) >> 32);"@,
                seq![d, start, sign, product, round],
            ),
        )
    } else {
        vfp::interpret_code(out, scope, a, op)
    }
}

fn dual_multiply(out: &mut String, scope: &Scope, a: u32, op: u32, op1: u32) -> (on: bool)
    ensures
        (Code { text: final(out)@, on }) == dual_multiply_code(old(out)@, scope@, a, op, op1),
{
    let rd = (op >> 16) & 0xF;
    let ra = (op >> 12) & 0xF;
    if rd == 15 || (op1 == 0b10100 && ra == 15) {
        return interpret(out, scope, a, op);
    }
    let d = decimal(rd);
    let acc = decimal(ra);
    let m = scope.reg(op & 0xF, a.wrapping_add(8));
    let s = scope.reg((op >> 8) & 0xF, a.wrapping_add(8));
    let bit5 = bit_set(op, 5);
    let sign = sign_name(!bit_set(op, 6));
    if op1 == 0b10000 || op1 == 0b10100 {
        // bit 5 swaps the halves of the second operand
        let b = if bit5 {
            form1("ror32({}, 16)", s.as_str())
        } else {
            s
        };
        let dual = form5(
            "((int64_t)(int16_t){} * (int16_t){} {} (int64_t)(int16_t)({} >> 16) * (int16_t)({} >> 16))",
            m.as_str(),
            b.as_str(),
            sign,
            m.as_str(),
            b.as_str(),
        );
        if op1 == 0b10000 {
            let sum = if ra == 15 {
                dual
            } else {
                form2("{} + (int32_t)ctx->r[{}]", dual.as_str(), acc.as_str())
            };
            emit2(out, "    ctx->r[{}] = accumulate(ctx, {});", d.as_str(), sum.as_str());
        } else {
            emit5(
                out,
                "    { uint64_t r = ((uint64_t)ctx->r[{}] << 32 | ctx->r[{}]) + (uint64_t){}; ctx->r[{}] = (uint32_t)r; ctx->r[{}] = (uint32_t)(r >> 32); }",
                d.as_str(),
                acc.as_str(),
                dual.as_str(),
                acc.as_str(),
                d.as_str(),
            );
        }
    } else if op1 == 0b10101 {
        // the top of a full 64 bit product, bit 5 rounding it
        let product = form2(
            "(uint64_t)((int64_t)(int32_t){} * (int32_t){})",
            m.as_str(),
            s.as_str(),
        );
        let start = if ra == 15 {
            "0".to_owned()
        } else {
            form1("((uint64_t)ctx->r[{}] << 32)", acc.as_str())
        };
        let round = if bit5 {
            " + 0x80000000u"
        } else {
            ""
        };
        emit5(
            out,
            "    ctx->r[{}] = (uint32_t)(({} {} {}{}) >> 32);",
            d.as_str(),
            start.as_str(),
            sign,
            product.as_str(),
            round,
        );
    } else {
        return interpret(out, scope, a, op);
    }
    true
}

/// usad8 and usada8.
pub open spec fn usad8_code(out: Seq<char>, scope: Names, a: u32, op: u32) -> Code {
    let rd = (op >> 16) & 0xF;
    let ra = (op >> 12) & 0xF;
    let sum = text::fill(
        "media_usad8({}, {})"@,
        seq![
            scope.reg(op & 0xF, a.wrapping_add(8)),
            scope.reg((op >> 8) & 0xF, a.wrapping_add(8)),
        ],
    );
    let value = if ra == 15 {
        sum
    } else {
        text::fill("{} + ctx->r[{}]"@, seq![sum, text::dec(ra as nat)])
    };
    if rd == 15 {
        vfp::interpret_code(out, scope, a, op)
    } else {
        on(text::emitted(out, "    ctx->r[{}] = {};"@, seq![text::dec(rd as nat), value]))
    }
}

fn usad8(out: &mut String, scope: &Scope, a: u32, op: u32) -> (on: bool)
    ensures
        (Code { text: final(out)@, on }) == usad8_code(old(out)@, scope@, a, op),
{
    let rd = (op >> 16) & 0xF;
    let ra = (op >> 12) & 0xF;
    if rd == 15 {
        return interpret(out, scope, a, op);
    }
    let sum = form2(
        "media_usad8({}, {})",
        scope.reg(op & 0xF, a.wrapping_add(8)).as_str(),
        scope.reg((op >> 8) & 0xF, a.wrapping_add(8)).as_str(),
    );
    let value = if ra == 15 {
        sum
    } else {
        form2("{} + ctx->r[{}]", sum.as_str(), decimal(ra).as_str())
    };
    emit2(out, "    ctx->r[{}] = {};", decimal(rd).as_str(), value.as_str());
    true
}

} // verus!
