//! lowering Thumb instructions to C, following the interpreter's decoding the
//! same way the ARM side does. r15 reads as the address plus 4.

use crate::arm;
use crate::arm::bit_set;
use crate::codegen;
use crate::codegen::arm as lowering;
use crate::codegen::arm::{count_listed, load_list, shift_name, sign_name};
use crate::codegen::{call, condition_name, jump, register, Code, Names, Scope};
use crate::text;
use crate::text::{
    decimal, emit0, emit1, emit2, emit3, emit4, emit5, form1, form2, hexadecimal, number_text,
};
use crate::thumb;
use vstd::prelude::*;

verus! {

/// how r sets the sign and zero flags.
pub const NZ: &'static str = "ctx->n = r >> 31; ctx->z = r == 0;";

/// how a plus b in r sets the flags.
pub const ADD_FLAGS: &'static str =
    "ctx->n = r >> 31; ctx->z = r == 0; ctx->c = r < a; ctx->v = ((a ^ r) & (b ^ r)) >> 31;";

/// how a minus b in r sets the flags.
pub const SUB_FLAGS: &'static str =
    "ctx->n = r >> 31; ctx->z = r == 0; ctx->c = a >= b; ctx->v = ((a ^ b) & (a ^ r)) >> 31;";

/// reading a register, where r15 is the address plus 4.
pub open spec fn reg_text(scope: Names, register: u32, a: u32) -> Seq<char> {
    scope.reg(register, a.wrapping_add(4))
}

fn reg(scope: &Scope, register: u32, a: u32) -> (text: String)
    ensures
        text@ == reg_text(scope@, register, a),
{
    scope.reg(register, a.wrapping_add(4))
}

/// an instruction left to the interpreter.
pub open spec fn interpret_code(out: Seq<char>, scope: Names, a: u32, op: u32) -> Code {
    lowering::on(
        text::emitted(
            out,
            "    INTERPRET({}, 0x{}u);"@,
            seq![scope.at(a), text::hex_wide(op as nat, 4)],
        ),
    )
}

fn interpret(out: &mut String, scope: &Scope, a: u32, op: u32) -> (on: bool)
    ensures
        (Code { text: final(out)@, on }) == interpret_code(old(out)@, scope@, a, op),
{
    emit2(
        out,
        "    INTERPRET({}, 0x{}u);",
        scope.at(a).as_str(),
        number_text(op as u64, 16, 4).as_str(),
    );
    true
}

/// a load into a register, as C.
pub open spec fn loaded(out: Seq<char>, rd: u32, read: Seq<char>, address: Seq<char>) -> Code {
    lowering::on(
        text::emitted(out, "    ctx->r[{}] = {}(ctx, {});"@, seq![text::dec(rd as nat), read, address]),
    )
}

fn load(out: &mut String, rd: u32, read: &str, address: &str) -> (on: bool)
    ensures
        (Code { text: final(out)@, on }) == loaded(old(out)@, rd, read@, address@),
{
    emit3(out, "    ctx->r[{}] = {}(ctx, {});", decimal(rd).as_str(), read, address);
    true
}

/// a store of a register, as C.
pub open spec fn stored(
    out: Seq<char>,
    rd: u32,
    write: Seq<char>,
    address: Seq<char>,
    cast: Seq<char>,
) -> Code {
    lowering::on(
        text::emitted(
            out,
            "    {}(ctx, {}, {}ctx->r[{}]);"@,
            seq![write, address, cast, text::dec(rd as nat)],
        ),
    )
}

fn store(out: &mut String, rd: u32, write: &str, address: &str, cast: &str) -> (on: bool)
    ensures
        (Code { text: final(out)@, on }) == stored(old(out)@, rd, write@, address@, cast@),
{
    emit4(out, "    {}(ctx, {}, {}ctx->r[{}]);", write, address, cast, decimal(rd).as_str());
    true
}

/// a register plus an offset, as C.
pub open spec fn offset_text(register: u32, offset: nat) -> Seq<char> {
    text::fill("ctx->r[{}] + 0x{}u"@, seq![text::dec(register as nat), text::hex(offset)])
}

fn offset(register: u32, distance: u32) -> (text: String)
    ensures
        text@ == offset_text(register, distance as nat),
{
    form2("ctx->r[{}] + 0x{}u", decimal(register).as_str(), hexadecimal(distance).as_str())
}

proof fn lemma_op(op: u32)
    by (bit_vector)
    ensures
        op & 0xFF <= 0xFF,
        op & 0x7F <= 0x7F,
        op & 0x7FF <= 0x7FF,
        (op >> 6) & 0x1F <= 31,
        (op >> 8) & 7 <= 7,
        (op >> 3) & 7 <= 7,
{
}

/// the address past pc, counted from the word it is in.
pub open spec fn literal_of(a: u32, op: u32) -> u32 {
    arm::displaced(a.wrapping_add(4) & !3, 4 * (op & 0xFF))
}

fn literal(a: u32, op: u32) -> (address: u32)
    ensures
        address == literal_of(a, op),
{
    proof {
        lemma_op(op);
    }
    arm::displace(a.wrapping_add(4) & !3, (op & 0xFF) as i32 * 4)
}

/// where the bl or blx pair of op and second goes, before blx aligns it.
pub open spec fn pair_target(a: u32, op: u32, second: u32) -> u32 {
    arm::displaced(
        a.wrapping_add(4),
        thumb::signed_11(op & 0x7FF) * 0x1000 + 2 * (second & 0x7FF),
    )
}

/// the C for the instruction at a, second being the halfword after it.
pub open spec fn lower_code(out: Seq<char>, scope: Names, a: u32, op: u32, second: u32) -> Code {
    let space = op >> 13;
    let top = op >> 11;
    if space == 0b000 {
        if (op >> 11) & 3 == 0b11 {
            add_subtract_code(out, op)
        } else {
            shift_immediate_code(out, op)
        }
    } else if space == 0b001 {
        immediate_code(out, op)
    } else if space == 0b010 {
        if arm::bit(op, 12) {
            register_offset_code(out, op)
        } else if arm::bit(op, 11) {
            loaded(out, (op >> 8) & 7, "mem_read32"@, scope.at(literal_of(a, op)))
        } else if arm::bit(op, 10) {
            high_register_code(out, scope, a, op)
        } else {
            alu_code(out, op)
        }
    } else if space == 0b011 {
        immediate_offset_code(out, op)
    } else if space == 0b100 {
        halfword_stack_code(out, op)
    } else if space == 0b101 {
        if arm::bit(op, 12) {
            miscellaneous_code(out, scope, a, op)
        } else {
            add_address_code(out, scope, a, op)
        }
    } else if space == 0b110 {
        if arm::bit(op, 12) {
            conditional_branch_code(out, scope, a, op)
        } else {
            block_transfer_code(out, op)
        }
    } else if top == 0b11100 {
        let target = arm::displaced(a.wrapping_add(4), 2 * thumb::signed_11(op & 0x7FF));
        codegen::jump_code(out, scope, target, true)
    } else if top == 0b11110 && second >> 11 == 0b11111 {
        codegen::call_code(
            out,
            scope,
            a.wrapping_add(4) | 1,
            pair_target(a, op, second),
            true,
        )
    } else if top == 0b11110 && second >> 11 == 0b11101 {
        codegen::call_code(
            out,
            scope,
            a.wrapping_add(4) | 1,
            pair_target(a, op, second) & !3,
            false,
        )
    } else {
        // a half of bl on its own
        interpret_code(out, scope, a, op)
    }
}

/// writes the C for the instruction at a, second being the halfword
/// after it, returning whether execution can carry on to the next one.
pub fn lower(out: &mut String, scope: &Scope, a: u32, op: u32, second: u32) -> (on: bool)
    ensures
        (Code { text: final(out)@, on }) == lower_code(old(out)@, scope@, a, op, second),
{
    proof {
        lemma_op(op);
        lemma_op(second);
    }
    let space = op >> 13;
    let top = op >> 11;
    if space == 0b000 {
        if (op >> 11) & 3 == 0b11 {
            add_subtract(out, op)
        } else {
            shift_immediate(out, op)
        }
    } else if space == 0b001 {
        immediate(out, op)
    } else if space == 0b010 {
        if bit_set(op, 12) {
            register_offset(out, op)
        } else if bit_set(op, 11) {
            load(out, (op >> 8) & 7, "mem_read32", scope.at(literal(a, op)).as_str())
        } else if bit_set(op, 10) {
            high_register(out, scope, a, op)
        } else {
            alu(out, op)
        }
    } else if space == 0b011 {
        immediate_offset(out, op)
    } else if space == 0b100 {
        halfword_stack(out, op)
    } else if space == 0b101 {
        if bit_set(op, 12) {
            miscellaneous(out, scope, a, op)
        } else {
            add_address(out, scope, a, op)
        }
    } else if space == 0b110 {
        if bit_set(op, 12) {
            conditional_branch(out, scope, a, op)
        } else {
            block_transfer(out, op)
        }
    } else if top == 0b11100 {
        let field = thumb::sign_extend(op & 0x7FF, 11);
        jump(out, scope, arm::displace(a.wrapping_add(4), field * 2), true)
    } else if top == 0b11110 && (second >> 11 == 0b11111 || second >> 11 == 0b11101) {
        let high = thumb::sign_extend(op & 0x7FF, 11) * 0x1000;
        let distance = high + ((second & 0x7FF) * 2) as i32;
        let target = arm::displace(a.wrapping_add(4), distance);
        if second >> 11 == 0b11111 {
            call(out, scope, a.wrapping_add(4) | 1, target, true)
        } else {
            call(out, scope, a.wrapping_add(4) | 1, target & !3, false)
        }
    } else {
        // a half of bl on its own
        interpret(out, scope, a, op)
    }
}

/// strh, ldrh and the loads and stores off sp.
pub open spec fn halfword_stack_code(out: Seq<char>, op: u32) -> Code {
    if arm::bit(op, 12) {
        let rd = (op >> 8) & 7;
        let address = offset_text(13, ((op & 0xFF) * 4) as nat);
        if arm::bit(op, 11) {
            loaded(out, rd, "mem_read32"@, address)
        } else {
            stored(out, rd, "mem_write32"@, address, ""@)
        }
    } else {
        let rd = op & 7;
        let address = offset_text((op >> 3) & 7, (((op >> 6) & 0x1F) * 2) as nat);
        if arm::bit(op, 11) {
            loaded(out, rd, "mem_read16"@, address)
        } else {
            stored(out, rd, "mem_write16"@, address, "(uint16_t)"@)
        }
    }
}

fn halfword_stack(out: &mut String, op: u32) -> (on: bool)
    ensures
        (Code { text: final(out)@, on }) == halfword_stack_code(old(out)@, op),
{
    proof {
        lemma_op(op);
    }
    if bit_set(op, 12) {
        let rd = (op >> 8) & 7;
        let address = offset(13, (op & 0xFF) * 4);
        if bit_set(op, 11) {
            load(out, rd, "mem_read32", address.as_str())
        } else {
            store(out, rd, "mem_write32", address.as_str(), "")
        }
    } else {
        let (rd, rb) = (op & 7, (op >> 3) & 7);
        let address = offset(rb, ((op >> 6) & 0x1F) * 2);
        if bit_set(op, 11) {
            load(out, rd, "mem_read16", address.as_str())
        } else {
            store(out, rd, "mem_write16", address.as_str(), "(uint16_t)")
        }
    }
}

/// add rd, pc or sp, imm.
pub open spec fn add_address_code(out: Seq<char>, scope: Names, a: u32, op: u32) -> Code {
    let rd = text::dec(((op >> 8) & 7) as nat);
    lowering::on(
        if arm::bit(op, 11) {
            text::emitted(
                out,
                "    ctx->r[{}] = ctx->r[13] + 0x{}u;"@,
                seq![rd, text::hex(((op & 0xFF) * 4) as nat)],
            )
        } else {
            text::emitted(out, "    ctx->r[{}] = {};"@, seq![rd, scope.at(literal_of(a, op))])
        },
    )
}

fn add_address(out: &mut String, scope: &Scope, a: u32, op: u32) -> (on: bool)
    ensures
        (Code { text: final(out)@, on }) == add_address_code(old(out)@, scope@, a, op),
{
    proof {
        lemma_op(op);
    }
    let rd = decimal((op >> 8) & 7);
    if bit_set(op, 11) {
        emit2(
            out,
            "    ctx->r[{}] = ctx->r[13] + 0x{}u;",
            rd.as_str(),
            hexadecimal((op & 0xFF) * 4).as_str(),
        );
    } else {
        emit2(out, "    ctx->r[{}] = {};", rd.as_str(), scope.at(literal(a, op)).as_str());
    }
    true
}

/// the kind of shift by an immediate, lsl, lsr or asr.
pub open spec fn shift_kind(op: u32) -> u32 {
    if (op >> 11) & 3 <= 1 {
        (op >> 11) & 3
    } else {
        2
    }
}

/// lsl, lsr and asr by an immediate, where lsl by nothing keeps the carry.
pub open spec fn shift_immediate_code(out: Seq<char>, op: u32) -> Code {
    let amount = (op >> 6) & 0x1F;
    let (value, carry_out) = lowering::shifted_text(shift_kind(op), amount);
    let carry = if shift_kind(op) == 0 && amount == 0 {
        ""@
    } else {
        text::fill(" ctx->c = {};"@, seq![carry_out])
    };
    lowering::on(
        text::emitted(
            out,
            "    { uint32_t m = ctx->r[{}], r = {};{} ctx->r[{}] = r; {} }"@,
            seq![
                text::dec(((op >> 3) & 7) as nat),
                value,
                carry,
                text::dec((op & 7) as nat),
                NZ@,
            ],
        ),
    )
}

fn shift_immediate(out: &mut String, op: u32) -> (on: bool)
    ensures
        (Code { text: final(out)@, on }) == shift_immediate_code(old(out)@, op),
{
    proof {
        lemma_op(op);
    }
    let amount = (op >> 6) & 0x1F;
    let kind = if (op >> 11) & 3 <= 1 {
        (op >> 11) & 3
    } else {
        2
    };
    let (value, carry_out) = lowering::shifted(kind, amount);
    let carry = if kind == 0 && amount == 0 {
        "".to_owned()
    } else {
        form1(" ctx->c = {};", carry_out.as_str())
    };
    emit5(
        out,
        "    { uint32_t m = ctx->r[{}], r = {};{} ctx->r[{}] = r; {} }",
        decimal((op >> 3) & 7).as_str(),
        value.as_str(),
        carry.as_str(),
        decimal(op & 7).as_str(),
        NZ,
    );
    true
}

/// add and sub with a register or a 3 bit immediate.
pub open spec fn add_subtract_code(out: Seq<char>, op: u32) -> Code {
    let field = (op >> 6) & 7;
    let b = if arm::bit(op, 10) {
        text::fill("{}u"@, seq![text::dec(field as nat)])
    } else {
        codegen::register_text(field)
    };
    let source = text::dec(((op >> 3) & 7) as nat);
    let rd = text::dec((op & 7) as nat);
    lowering::on(
        if arm::bit(op, 9) {
            text::emitted(
                out,
                "    { uint32_t a = ctx->r[{}], b = {}, r = a - b; ctx->r[{}] = r; {} }"@,
                seq![source, b, rd, SUB_FLAGS@],
            )
        } else {
            text::emitted(
                out,
                "    { uint32_t a = ctx->r[{}], b = {}, r = a + b; ctx->r[{}] = r; {} }"@,
                seq![source, b, rd, ADD_FLAGS@],
            )
        },
    )
}

fn add_subtract(out: &mut String, op: u32) -> (on: bool)
    ensures
        (Code { text: final(out)@, on }) == add_subtract_code(old(out)@, op),
{
    let field = (op >> 6) & 7;
    let b = if bit_set(op, 10) {
        form1("{}u", decimal(field).as_str())
    } else {
        register(field)
    };
    let source = decimal((op >> 3) & 7);
    let rd = decimal(op & 7);
    if bit_set(op, 9) {
        emit4(
            out,
            "    { uint32_t a = ctx->r[{}], b = {}, r = a - b; ctx->r[{}] = r; {} }",
            source.as_str(),
            b.as_str(),
            rd.as_str(),
            SUB_FLAGS,
        );
    } else {
        emit4(
            out,
            "    { uint32_t a = ctx->r[{}], b = {}, r = a + b; ctx->r[{}] = r; {} }",
            source.as_str(),
            b.as_str(),
            rd.as_str(),
            ADD_FLAGS,
        );
    }
    true
}

/// mov, cmp, add and sub with an 8 bit immediate.
pub open spec fn immediate_code(out: Seq<char>, op: u32) -> Code {
    let rd = text::dec(((op >> 8) & 7) as nat);
    let imm = text::dec((op & 0xFF) as nat);
    let kind = (op >> 11) & 3;
    let zero = if op & 0xFF == 0 {
        "1"@
    } else {
        "0"@
    };
    lowering::on(
        if kind == 0 {
            text::emitted(
                out,
                "    ctx->r[{}] = {}u; ctx->n = 0; ctx->z = {};"@,
                seq![rd, imm, zero],
            )
        } else if kind == 1 {
            text::emitted(
                out,
                "    { uint32_t a = ctx->r[{}], b = {}u, r = a - b; {} }"@,
                seq![rd, imm, SUB_FLAGS@],
            )
        } else if kind == 2 {
            text::emitted(
                out,
                "    { uint32_t a = ctx->r[{}], b = {}u, r = a + b; ctx->r[{}] = r; {} }"@,
                seq![rd, imm, rd, ADD_FLAGS@],
            )
        } else {
            text::emitted(
                out,
                "    { uint32_t a = ctx->r[{}], b = {}u, r = a - b; ctx->r[{}] = r; {} }"@,
                seq![rd, imm, rd, SUB_FLAGS@],
            )
        },
    )
}

fn immediate(out: &mut String, op: u32) -> (on: bool)
    ensures
        (Code { text: final(out)@, on }) == immediate_code(old(out)@, op),
{
    let rd = decimal((op >> 8) & 7);
    let imm = decimal(op & 0xFF);
    let kind = (op >> 11) & 3;
    if kind == 0 {
        let zero = if op & 0xFF == 0 {
            "1"
        } else {
            "0"
        };
        emit3(
            out,
            "    ctx->r[{}] = {}u; ctx->n = 0; ctx->z = {};",
            rd.as_str(),
            imm.as_str(),
            zero,
        );
    } else if kind == 1 {
        emit3(
            out,
            "    { uint32_t a = ctx->r[{}], b = {}u, r = a - b; {} }",
            rd.as_str(),
            imm.as_str(),
            SUB_FLAGS,
        );
    } else if kind == 2 {
        emit4(
            out,
            "    { uint32_t a = ctx->r[{}], b = {}u, r = a + b; ctx->r[{}] = r; {} }",
            rd.as_str(),
            imm.as_str(),
            rd.as_str(),
            ADD_FLAGS,
        );
    } else {
        emit4(
            out,
            "    { uint32_t a = ctx->r[{}], b = {}u, r = a - b; ctx->r[{}] = r; {} }",
            rd.as_str(),
            imm.as_str(),
            rd.as_str(),
            SUB_FLAGS,
        );
    }
    true
}

/// the template for what an ALU operation does with a and b, with holes for
/// its destination and the flags.
pub open spec fn alu_template(kind: u32) -> Seq<char> {
    if kind == 0x0 {
        "r = a & b; ctx->r[{}] = r; {}"@
    } else if kind == 0x1 {
        "r = a ^ b; ctx->r[{}] = r; {}"@
    } else if kind == 0x5 {
        "uint8_t ci = ctx->c; r = a + b + ci; ctx->r[{}] = r; {} ctx->c = ((uint64_t)a + b + ci) >> 32; ctx->v = ((a ^ r) & (b ^ r)) >> 31;"@
    } else if kind == 0x6 {
        "uint8_t ci = ctx->c; r = a - b - !ci; ctx->r[{}] = r; {} ctx->c = (uint64_t)a >= (uint64_t)b + !ci; ctx->v = ((a ^ b) & (a ^ r)) >> 31;"@
    } else if kind == 0x9 {
        // neg is rsb 0
        "r = 0 - b; ctx->r[{}] = r; {} ctx->c = b == 0; ctx->v = (b & r) >> 31;"@
    } else if kind == 0xC {
        "r = a | b; ctx->r[{}] = r; {}"@
    } else if kind == 0xD {
        "r = a * b; ctx->r[{}] = r; {}"@
    } else if kind == 0xE {
        "r = a & ~b; ctx->r[{}] = r; {}"@
    } else {
        "r = ~b; ctx->r[{}] = r; {}"@
    }
}

fn alu_name(kind: u32) -> (name: &'static str)
    ensures
        name@ == alu_template(kind),
{
    if kind == 0x0 {
        "r = a & b; ctx->r[{}] = r; {}"
    } else if kind == 0x1 {
        "r = a ^ b; ctx->r[{}] = r; {}"
    } else if kind == 0x5 {
        "uint8_t ci = ctx->c; r = a + b + ci; ctx->r[{}] = r; {} ctx->c = ((uint64_t)a + b + ci) >> 32; ctx->v = ((a ^ r) & (b ^ r)) >> 31;"
    } else if kind == 0x6 {
        "uint8_t ci = ctx->c; r = a - b - !ci; ctx->r[{}] = r; {} ctx->c = (uint64_t)a >= (uint64_t)b + !ci; ctx->v = ((a ^ b) & (a ^ r)) >> 31;"
    } else if kind == 0x9 {
        // neg is rsb 0
        "r = 0 - b; ctx->r[{}] = r; {} ctx->c = b == 0; ctx->v = (b & r) >> 31;"
    } else if kind == 0xC {
        "r = a | b; ctx->r[{}] = r; {}"
    } else if kind == 0xD {
        "r = a * b; ctx->r[{}] = r; {}"
    } else if kind == 0xE {
        "r = a & ~b; ctx->r[{}] = r; {}"
    } else {
        "r = ~b; ctx->r[{}] = r; {}"
    }
}

/// what an ALU operation does with a and b, as C.
pub open spec fn alu_text(kind: u32, rd: Seq<char>) -> Seq<char> {
    if kind == 0x2 || kind == 0x3 || kind == 0x4 || kind == 0x7 {
        let shift = lowering::shift_text(
            if kind == 0x7 {
                3u32
            } else {
                (kind - 2) as u32
            },
        );
        text::fill(
            "uint8_t sc = ctx->c; r = {}(a, b, &sc); ctx->r[{}] = r; ctx->n = r >> 31; ctx->z = r == 0; ctx->c = sc;"@,
            seq![shift, rd],
        )
    } else if kind == 0x8 {
        text::fill("r = a & b; {}"@, seq![NZ@])
    } else if kind == 0xA {
        text::fill("r = a - b; {}"@, seq![SUB_FLAGS@])
    } else if kind == 0xB {
        text::fill("r = a + b; {}"@, seq![ADD_FLAGS@])
    } else {
        text::fill(alu_template(kind), seq![rd, NZ@])
    }
}

fn alu_body(kind: u32, rd: &str) -> (text: String)
    ensures
        text@ == alu_text(kind, rd@),
{
    if kind == 0x2 || kind == 0x3 || kind == 0x4 || kind == 0x7 {
        let shift = shift_name(
            if kind == 0x7 {
                3
            } else {
                kind - 2
            },
        );
        form2(
            "uint8_t sc = ctx->c; r = {}(a, b, &sc); ctx->r[{}] = r; ctx->n = r >> 31; ctx->z = r == 0; ctx->c = sc;",
            shift,
            rd,
        )
    } else if kind == 0x8 {
        form1("r = a & b; {}", NZ)
    } else if kind == 0xA {
        form1("r = a - b; {}", SUB_FLAGS)
    } else if kind == 0xB {
        form1("r = a + b; {}", ADD_FLAGS)
    } else {
        form2(alu_name(kind), rd, NZ)
    }
}

/// the register to register ALU operations.
pub open spec fn alu_code(out: Seq<char>, op: u32) -> Code {
    let rd = text::dec((op & 7) as nat);
    let rs = text::dec(((op >> 3) & 7) as nat);
    lowering::on(
        text::emitted(
            out,
            "    { uint32_t a = ctx->r[{}], b = ctx->r[{}], r; {} }"@,
            seq![rd, rs, alu_text((op >> 6) & 0xF, rd)],
        ),
    )
}

fn alu(out: &mut String, op: u32) -> (on: bool)
    ensures
        (Code { text: final(out)@, on }) == alu_code(old(out)@, op),
{
    let rd = decimal(op & 7);
    let rs = decimal((op >> 3) & 7);
    let body = alu_body((op >> 6) & 0xF, rd.as_str());
    emit3(
        out,
        "    { uint32_t a = ctx->r[{}], b = ctx->r[{}], r; {} }",
        rd.as_str(),
        rs.as_str(),
        body.as_str(),
    );
    true
}

/// add, cmp and mov on the high registers, and bx and blx.
pub open spec fn high_register_code(out: Seq<char>, scope: Names, a: u32, op: u32) -> Code {
    let rd = (op & 7) | ((op >> 4) & 8);
    let rs = (op >> 3) & 0xF;
    let source = reg_text(scope, rs, a);
    let destination = reg_text(scope, rd, a);
    let kind = (op >> 8) & 3;
    let d = text::dec(rd as nat);
    let next = scope.at(a.wrapping_add(2));
    if kind == 0 && rd == 15 {
        // writing pc keeps Thumb
        lowering::off(
            text::emitted(
                out,
                "    target = ({} + {}) & ~1u; goto dispatch;"@,
                seq![destination, source],
            ),
        )
    } else if kind == 0 {
        lowering::on(
            text::emitted(out, "    ctx->r[{}] = {} + {};"@, seq![d, destination, source]),
        )
    } else if kind == 1 {
        lowering::on(
            text::emitted(
                out,
                "    { uint32_t a = {}, b = {}, r = a - b; {} }"@,
                seq![destination, source, SUB_FLAGS@],
            ),
        )
    } else if kind == 2 && rd == 15 && rs == 14 {
        lowering::off(
            text::emitted(out, "    ctx->r[15] = ctx->r[14] & ~1u; return;"@, Seq::empty()),
        )
    } else if kind == 2 && rd == 15 {
        lowering::off(
            text::emitted(out, "    target = {} & ~1u; goto dispatch;"@, seq![source]),
        )
    } else if kind == 2 {
        lowering::on(text::emitted(out, "    ctx->r[{}] = {};"@, seq![d, source]))
    } else if arm::bit(op, 7) {
        let out = text::emitted(
            out,
            "    { uint32_t v = {}; ctx->r[14] = {} | 1; ctx->thumb = v & 1; ctx->r[15] = v & (ctx->thumb ? ~1u : ~3u); }"@,
            seq![source, next],
        );
        let out = text::emitted(out, "    CALL(recomp_call);"@, Seq::empty());
        lowering::on(text::emitted(out, "    RETURNED_T({});"@, seq![next]))
    } else if rs == 14 {
        lowering::off(text::emitted(out, "    RETURN_TO(ctx->r[14]);"@, Seq::empty()))
    } else {
        lowering::off(text::emitted(out, "    JUMP_TO({});"@, seq![source]))
    }
}

fn high_register(out: &mut String, scope: &Scope, a: u32, op: u32) -> (on: bool)
    ensures
        (Code { text: final(out)@, on }) == high_register_code(old(out)@, scope@, a, op),
{
    let rd = (op & 7) | ((op >> 4) & 8);
    let rs = (op >> 3) & 0xF;
    let source = reg(scope, rs, a);
    let destination = reg(scope, rd, a);
    let kind = (op >> 8) & 3;
    let d = decimal(rd);
    if kind == 0 && rd == 15 {
        // writing pc keeps Thumb
        emit2(
            out,
            "    target = ({} + {}) & ~1u; goto dispatch;",
            destination.as_str(),
            source.as_str(),
        );
        false
    } else if kind == 0 {
        emit3(
            out,
            "    ctx->r[{}] = {} + {};",
            d.as_str(),
            destination.as_str(),
            source.as_str(),
        );
        true
    } else if kind == 1 {
        emit3(
            out,
            "    { uint32_t a = {}, b = {}, r = a - b; {} }",
            destination.as_str(),
            source.as_str(),
            SUB_FLAGS,
        );
        true
    } else if kind == 2 && rd == 15 && rs == 14 {
        emit0(out, "    ctx->r[15] = ctx->r[14] & ~1u; return;");
        false
    } else if kind == 2 && rd == 15 {
        emit1(out, "    target = {} & ~1u; goto dispatch;", source.as_str());
        false
    } else if kind == 2 {
        emit2(out, "    ctx->r[{}] = {};", d.as_str(), source.as_str());
        true
    } else if bit_set(op, 7) {
        let next = scope.at(a.wrapping_add(2));
        emit2(
            out,
            "    { uint32_t v = {}; ctx->r[14] = {} | 1; ctx->thumb = v & 1; ctx->r[15] = v & (ctx->thumb ? ~1u : ~3u); }",
            source.as_str(),
            next.as_str(),
        );
        emit0(out, "    CALL(recomp_call);");
        emit1(out, "    RETURNED_T({});", next.as_str());
        true
    } else if rs == 14 {
        emit0(out, "    RETURN_TO(ctx->r[14]);");
        false
    } else {
        emit1(out, "    JUMP_TO({});", source.as_str());
        false
    }
}

/// loads and stores with a register offset.
pub open spec fn register_offset_code(out: Seq<char>, op: u32) -> Code {
    let rd = op & 7;
    let address = text::fill(
        "ctx->r[{}] + ctx->r[{}]"@,
        seq![text::dec(((op >> 3) & 7) as nat), text::dec(((op >> 6) & 7) as nat)],
    );
    let kind = (op >> 10) & 3;
    if arm::bit(op, 9) {
        if kind == 0 {
            stored(out, rd, "mem_write16"@, address, "(uint16_t)"@)
        } else if kind == 1 {
            loaded(out, rd, "(uint32_t)(int32_t)(int8_t)mem_read8"@, address)
        } else if kind == 2 {
            loaded(out, rd, "mem_read16"@, address)
        } else {
            loaded(out, rd, "(uint32_t)(int32_t)(int16_t)mem_read16"@, address)
        }
    } else if kind == 0 {
        stored(out, rd, "mem_write32"@, address, ""@)
    } else if kind == 1 {
        stored(out, rd, "mem_write8"@, address, "(uint8_t)"@)
    } else if kind == 2 {
        loaded(out, rd, "mem_read32"@, address)
    } else {
        loaded(out, rd, "mem_read8"@, address)
    }
}

fn register_offset(out: &mut String, op: u32) -> (on: bool)
    ensures
        (Code { text: final(out)@, on }) == register_offset_code(old(out)@, op),
{
    let rd = op & 7;
    let sum = form2(
        "ctx->r[{}] + ctx->r[{}]",
        decimal((op >> 3) & 7).as_str(),
        decimal((op >> 6) & 7).as_str(),
    );
    let address = sum.as_str();
    let kind = (op >> 10) & 3;
    if bit_set(op, 9) {
        if kind == 0 {
            store(out, rd, "mem_write16", address, "(uint16_t)")
        } else if kind == 1 {
            load(out, rd, "(uint32_t)(int32_t)(int8_t)mem_read8", address)
        } else if kind == 2 {
            load(out, rd, "mem_read16", address)
        } else {
            load(out, rd, "(uint32_t)(int32_t)(int16_t)mem_read16", address)
        }
    } else if kind == 0 {
        store(out, rd, "mem_write32", address, "")
    } else if kind == 1 {
        store(out, rd, "mem_write8", address, "(uint8_t)")
    } else if kind == 2 {
        load(out, rd, "mem_read32", address)
    } else {
        load(out, rd, "mem_read8", address)
    }
}

/// ldr, str, ldrb and strb with an immediate offset.
pub open spec fn immediate_offset_code(out: Seq<char>, op: u32) -> Code {
    let rd = op & 7;
    let rb = (op >> 3) & 7;
    let field = ((op >> 6) & 0x1F) as nat;
    if arm::bit(op, 12) {
        if arm::bit(op, 11) {
            loaded(out, rd, "mem_read8"@, offset_text(rb, field))
        } else {
            stored(out, rd, "mem_write8"@, offset_text(rb, field), "(uint8_t)"@)
        }
    } else if arm::bit(op, 11) {
        loaded(out, rd, "mem_read32"@, offset_text(rb, field * 4))
    } else {
        stored(out, rd, "mem_write32"@, offset_text(rb, field * 4), ""@)
    }
}

fn immediate_offset(out: &mut String, op: u32) -> (on: bool)
    ensures
        (Code { text: final(out)@, on }) == immediate_offset_code(old(out)@, op),
{
    proof {
        lemma_op(op);
    }
    let rd = op & 7;
    let rb = (op >> 3) & 7;
    let field = (op >> 6) & 0x1F;
    if bit_set(op, 12) {
        let address = offset(rb, field);
        if bit_set(op, 11) {
            load(out, rd, "mem_read8", address.as_str())
        } else {
            store(out, rd, "mem_write8", address.as_str(), "(uint8_t)")
        }
    } else {
        let address = offset(rb, field * 4);
        if bit_set(op, 11) {
            load(out, rd, "mem_read32", address.as_str())
        } else {
            store(out, rd, "mem_write32", address.as_str(), "")
        }
    }
}

/// the sign and zero extensions.
pub open spec fn extended_text(kind: u32, m: Seq<char>) -> Seq<char> {
    if kind == 0 {
        text::fill("(uint32_t)(int32_t)(int16_t){}"@, seq![m])
    } else if kind == 1 {
        text::fill("(uint32_t)(int32_t)(int8_t){}"@, seq![m])
    } else if kind == 2 {
        text::fill("({} & 0xFFFF)"@, seq![m])
    } else {
        text::fill("({} & 0xFF)"@, seq![m])
    }
}

fn extended(kind: u32, m: &str) -> (text: String)
    ensures
        text@ == extended_text(kind, m@),
{
    if kind == 0 {
        form1("(uint32_t)(int32_t)(int16_t){}", m)
    } else if kind == 1 {
        form1("(uint32_t)(int32_t)(int8_t){}", m)
    } else if kind == 2 {
        form1("({} & 0xFFFF)", m)
    } else {
        form1("({} & 0xFF)", m)
    }
}

/// the reversals.
pub open spec fn reversed_text(kind: u32, m: Seq<char>) -> Seq<char> {
    if kind == 0 {
        text::fill("__builtin_bswap32({})"@, seq![m])
    } else if kind == 1 {
        text::fill("(({} & 0x00FF00FFu) << 8) | (({} & 0xFF00FF00u) >> 8)"@, seq![m, m])
    } else {
        text::fill(
            "(uint32_t)(int32_t)(int16_t)((({} & 0xFF) << 8) | (({} >> 8) & 0xFF))"@,
            seq![m, m],
        )
    }
}

fn reversed(kind: u32, m: &str) -> (text: String)
    ensures
        text@ == reversed_text(kind, m@),
{
    if kind == 0 {
        form1("__builtin_bswap32({})", m)
    } else if kind == 1 {
        form2("(({} & 0x00FF00FFu) << 8) | (({} & 0xFF00FF00u) >> 8)", m, m)
    } else {
        form2("(uint32_t)(int32_t)(int16_t)((({} & 0xFF) << 8) | (({} >> 8) & 0xFF))", m, m)
    }
}

/// moving sp, the extensions and reversals, push and pop.
pub open spec fn miscellaneous_code(out: Seq<char>, scope: Names, a: u32, op: u32) -> Code {
    let rd = text::dec((op & 7) as nat);
    let m = codegen::register_text((op >> 3) & 7);
    let kind = (op >> 8) & 0xF;
    let part = (op >> 6) & 3;
    if kind == 0b0000 {
        lowering::on(
            text::emitted(
                out,
                "    ctx->r[13] = ctx->r[13] {} 0x{}u;"@,
                seq![
                    lowering::sign_text(!arm::bit(op, 7)),
                    text::hex(((op & 0x7F) * 4) as nat),
                ],
            ),
        )
    } else if kind == 0b0010 {
        lowering::on(
            text::emitted(out, "    ctx->r[{}] = {};"@, seq![rd, extended_text(part, m)]),
        )
    } else if kind == 0b1010 && part != 2 {
        lowering::on(
            text::emitted(out, "    ctx->r[{}] = {};"@, seq![rd, reversed_text(part, m)]),
        )
    } else if kind == 0b0110 || kind == 0b1111 {
        // cps, setend and the hints do nothing here
        lowering::on(out)
    } else if kind == 0b0100 || kind == 0b0101 || kind == 0b1100 || kind == 0b1101 {
        push_pop_code(out, op)
    } else {
        interpret_code(out, scope, a, op)
    }
}

fn miscellaneous(out: &mut String, scope: &Scope, a: u32, op: u32) -> (on: bool)
    ensures
        (Code { text: final(out)@, on }) == miscellaneous_code(old(out)@, scope@, a, op),
{
    proof {
        lemma_op(op);
    }
    let rd = decimal(op & 7);
    let m = register((op >> 3) & 7);
    let kind = (op >> 8) & 0xF;
    let part = (op >> 6) & 3;
    if kind == 0b0000 {
        emit2(
            out,
            "    ctx->r[13] = ctx->r[13] {} 0x{}u;",
            sign_name(!bit_set(op, 7)),
            hexadecimal((op & 0x7F) * 4).as_str(),
        );
        true
    } else if kind == 0b0010 {
        emit2(out, "    ctx->r[{}] = {};", rd.as_str(), extended(part, m.as_str()).as_str());
        true
    } else if kind == 0b1010 && part != 2 {
        emit2(out, "    ctx->r[{}] = {};", rd.as_str(), reversed(part, m.as_str()).as_str());
        true
    } else if kind == 0b0110 || kind == 0b1111 {
        // cps, setend and the hints do nothing here
        true
    } else if kind == 0b0100 || kind == 0b0101 || kind == 0b1100 || kind == 0b1101 {
        push_pop(out, op)
    } else {
        interpret(out, scope, a, op)
    }
}

/// the registers below number in list stored one after another.
pub open spec fn list_stored(out: Seq<char>, list: u32, number: nat) -> Seq<char>
    decreases number,
{
    if number == 0 {
        out
    } else {
        let out = list_stored(out, list, (number - 1) as nat);
        if arm::bit(list, (number - 1) as u32) {
            text::emitted(
                out,
                "    mem_write32(ctx, p, ctx->r[{}]); p += 4;"@,
                seq![text::dec((number - 1) as nat)],
            )
        } else {
            out
        }
    }
}

fn store_list(out: &mut String, list: u32)
    ensures
        final(out)@ == list_stored(old(out)@, list, 8),
{
    let ghost begun = out@;
    for i in 0..8u32
        invariant
            out@ == list_stored(begun, list, i as nat),
    {
        if bit_set(list, i) {
            emit1(out, "    mem_write32(ctx, p, ctx->r[{}]); p += 4;", decimal(i).as_str());
        }
    }
}

/// push and pop, with lr and pc as the extra register.
pub open spec fn push_pop_code(out: Seq<char>, op: u32) -> Code {
    let list = op & 0xFF;
    let extra = arm::bit(op, 8);
    let count = lowering::listed(list, 8) + if extra {
        1nat
    } else {
        0nat
    };
    let span = text::dec(count * 4);
    if arm::bit(op, 11) {
        let out = text::emitted(out, "    { uint32_t p = ctx->r[13];"@, Seq::empty());
        let out = lowering::list_loaded(out, list, 8);
        let out = text::emitted(out, "    ctx->r[13] += {}u;"@, seq![span]);
        if extra {
            lowering::off(
                text::emitted(out, "    RETURN_TO(mem_read32(ctx, p)); }"@, Seq::empty()),
            )
        } else {
            lowering::on(text::emitted(out, "    (void)p; }"@, Seq::empty()))
        }
    } else {
        let out = text::emitted(
            out,
            "    { uint32_t start = ctx->r[13] - {}u, p = start;"@,
            seq![span],
        );
        let out = list_stored(out, list, 8);
        let out = if extra {
            text::emitted(out, "    mem_write32(ctx, p, ctx->r[14]);"@, Seq::empty())
        } else {
            out
        };
        lowering::on(text::emitted(out, "    ctx->r[13] = start; (void)p; }"@, Seq::empty()))
    }
}

fn push_pop(out: &mut String, op: u32) -> (on: bool)
    ensures
        (Code { text: final(out)@, on }) == push_pop_code(old(out)@, op),
{
    let list = op & 0xFF;
    let extra = bit_set(op, 8);
    let count = count_listed(list, 8) + if extra {
        1
    } else {
        0
    };
    let span = decimal(count * 4);
    if bit_set(op, 11) {
        emit0(out, "    { uint32_t p = ctx->r[13];");
        load_list(out, list, 8);
        emit1(out, "    ctx->r[13] += {}u;", span.as_str());
        if extra {
            emit0(out, "    RETURN_TO(mem_read32(ctx, p)); }");
            return false;
        }
        emit0(out, "    (void)p; }");
    } else {
        emit1(out, "    { uint32_t start = ctx->r[13] - {}u, p = start;", span.as_str());
        store_list(out, list);
        if extra {
            emit0(out, "    mem_write32(ctx, p, ctx->r[14]);");
        }
        emit0(out, "    ctx->r[13] = start; (void)p; }");
    }
    true
}

/// ldmia and stmia.
pub open spec fn block_transfer_code(out: Seq<char>, op: u32) -> Code {
    let rb = (op >> 8) & 7;
    let list = op & 0xFF;
    let load = arm::bit(op, 11);
    let base = text::dec(rb as nat);
    if lowering::listed(list, 8) == 0 {
        lowering::on(text::emitted(out, "    ctx->r[{}] += 0x40u;"@, seq![base]))
    } else {
        let out = text::emitted(
            out,
            "    { uint32_t p = ctx->r[{}], fin = p + {}u;"@,
            seq![base, text::dec(lowering::listed(list, 8) * 4)],
        );
        let out = if load {
            lowering::list_loaded(out, list, 8)
        } else {
            list_stored(out, list, 8)
        };
        let out = if load && arm::bit(list, rb) {
            out
        } else {
            text::emitted(out, "    ctx->r[{}] = fin;"@, seq![base])
        };
        lowering::on(text::emitted(out, "    (void)fin; }"@, Seq::empty()))
    }
}

fn block_transfer(out: &mut String, op: u32) -> (on: bool)
    ensures
        (Code { text: final(out)@, on }) == block_transfer_code(old(out)@, op),
{
    proof {
        lemma_op(op);
    }
    let rb = (op >> 8) & 7;
    let list = op & 0xFF;
    let base = decimal(rb);
    let count = count_listed(list, 8);
    if count == 0 {
        emit1(out, "    ctx->r[{}] += 0x40u;", base.as_str());
        return true;
    }
    let load = bit_set(op, 11);
    emit2(
        out,
        "    { uint32_t p = ctx->r[{}], fin = p + {}u;",
        base.as_str(),
        decimal(count * 4).as_str(),
    );
    if load {
        load_list(out, list, 8);
    } else {
        store_list(out, list);
    }
    if !(load && bit_set(list, rb)) {
        emit1(out, "    ctx->r[{}] = fin;", base.as_str());
    }
    emit0(out, "    (void)fin; }");
    true
}

/// conditional branches, with svc and undefined in the last two conditions.
pub open spec fn conditional_branch_code(out: Seq<char>, scope: Names, a: u32, op: u32) -> Code {
    let condition = (op >> 8) & 0xF;
    if condition == 0xF {
        lowering::off(
            text::emitted(
                out,
                "    SVC({}, 0x{}u);"@,
                seq![scope.at(a.wrapping_add(2)), text::hex((op & 0xFF) as nat)],
            ),
        )
    } else if condition == 0xE {
        interpret_code(out, scope, a, op)
    } else {
        let target = arm::displaced(a.wrapping_add(4), 2 * thumb::signed_8(op & 0xFF));
        let out = text::emitted(out, "    if ({}) {"@, seq![codegen::condition_text(condition)]);
        let out = codegen::jump_code(out, scope, target, true).text;
        lowering::on(text::emitted(out, "    }"@, Seq::empty()))
    }
}

fn conditional_branch(out: &mut String, scope: &Scope, a: u32, op: u32) -> (on: bool)
    ensures
        (Code { text: final(out)@, on }) == conditional_branch_code(old(out)@, scope@, a, op),
{
    proof {
        lemma_op(op);
    }
    let condition = (op >> 8) & 0xF;
    if condition == 0xF {
        emit2(
            out,
            "    SVC({}, 0x{}u);",
            scope.at(a.wrapping_add(2)).as_str(),
            hexadecimal(op & 0xFF).as_str(),
        );
        return false;
    }
    if condition == 0xE {
        return interpret(out, scope, a, op);
    }
    let field = thumb::sign_extend(op & 0xFF, 8);
    let target = arm::displace(a.wrapping_add(4), field * 2);
    emit1(out, "    if ({}) {", condition_name(condition));
    jump(out, scope, target, true);
    emit0(out, "    }");
    true
}

} // verus!
