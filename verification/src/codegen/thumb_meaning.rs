//! what the C for Thumb instructions does.

use crate::codegen::architecture::{
    add_with_carry, difference, inverted, shift_kind, shifted, sound, sum, with_flags, with_sign,
    Sum,
};
use crate::codegen::arm_meaning::{
    lemma_carry_statements, lemma_carrying_evals, lemma_shift_range, lemma_shifted_evals,
    lemma_shifted_texts, shifted_carry, shifted_value,
};
use crate::codegen::operands::lemma_word_flipped;
use crate::codegen::running::{
    arithmetic, comparison, lemma_arithmetic, lemma_comparison, lemma_difference_bits, lemma_leaves,
    lemma_set_difference_flags, lemma_set_overflow, lemma_set_register, lemma_set_sign,
    lemma_set_sum_flags, lemma_set_underflow, lemma_shifted_words, lemma_sum_bits,
    lemma_word_equals, lemma_words, small, word,
};
use crate::codegen::small_c;
use crate::codegen::small_c::{
    does, group_running, group_steps, lemma_line_does, shift, Declared, Expression, Field, Machine,
    Name, Operator, Place, Program, Statement, Type, Value,
};
use crate::codegen::thumb as lower;
use crate::codegen::thumb_lines as lines;
use crate::codegen::Names;
use crate::text;
use vstd::prelude::*;

verus! {

/// the fields of an instruction.
pub proof fn lemma_fields(op: u32)
    by (bit_vector)
    requires
        op <= 0xFFFF,
    ensures
        op >> 13 == op / 0x2000,
        op >> 11 == op / 0x800,
        (op >> 8) & 7 == op / 0x100 % 8,
        op & 0xFF == op % 0x100,
        op & 0x7F == op % 0x80,
        op & 0x7FF == op % 0x800,
        op / 0x200 % 8 == 2 * (op / 0x400 % 4) + op / 0x200 % 2,
        (op >> 11) & 3 == op / 0x800 % 4,
        (op >> 10) & 3 == op / 0x400 % 4,
        (op >> 6) & 7 == op / 0x40 % 8,
        (op >> 6) & 0x1F == op / 0x40 % 32,
        (op >> 6) & 0xF == op / 0x40 % 16,
        (op >> 6) & 3 == op / 0x40 % 4,
        (op >> 3) & 7 == op / 8 % 8,
        (op >> 3) & 0xF == op / 8 % 16,
        op & 7 == op % 8,
        (op >> 8) & 3 == op / 0x100 % 4,
        (op >> 8) & 0xF == op / 0x100 % 16,
        (op & 7) | ((op >> 4) & 8) == op % 8 + 8 * (op / 0x80 % 2),
        (op & (1u32 << 12) != 0) == (op / 0x1000 % 2 == 1),
        (op & (1u32 << 11) != 0) == (op / 0x800 % 2 == 1),
        (op & (1u32 << 10) != 0) == (op / 0x400 % 2 == 1),
        (op & (1u32 << 9) != 0) == (op / 0x200 % 2 == 1),
        (op & (1u32 << 8) != 0) == (op / 0x100 % 2 == 1),
        (op & (1u32 << 7) != 0) == (op / 0x80 % 2 == 1),
{
}

/// mov, cmp, add and sub with an 8 bit immediate. they leave rd with the
/// immediate, as it is, or with the sum or difference of the two, and the flags
/// are those of that very result.
pub proof fn law_immediates(
    out: Seq<char>,
    scope: Names,
    address: u32,
    op: u32,
    second: u32,
    machine: Machine,
)
    requires
        0x2000 <= op < 0x4000,
        sound(machine),
    ensures
        ({
            let code = lower::lower_code(out, scope, address, op, second);
            let rd = (op / 0x100 % 8) as int;
            let imm = (op % 0x100) as u32;
            let kind = op / 0x800 % 4;
            let x = machine.r[rd];
            let after = if kind == 0 {
                with_sign(machine.with_register(rd, imm), imm)
            } else if kind == 1 {
                with_flags(machine, difference(x, imm))
            } else if kind == 2 {
                with_flags(machine.with_register(rd, sum(x, imm).result), sum(x, imm))
            } else {
                with_flags(
                    machine.with_register(rd, difference(x, imm).result),
                    difference(x, imm),
                )
            };
            code.on && does(out, code.text, machine, after)
        }),
{
    lemma_fields(op);
    let rd = (op / 0x100 % 8) as nat;
    let imm = (op % 0x100) as nat;
    let kind = op / 0x800 % 4;
    let x = machine.r[rd as int];
    let y = imm as u32;
    let zero: nat = if imm == 0 {
        1
    } else {
        0
    };
    let first = Expression::Register(rd);
    let second_operand = Expression::Unsigned(imm);
    small_c::lemma_numbers();
    lemma_leaves(machine);
    lemma_leaves(machine.with_local(Name::A, word(x)));
    if kind == 0 {
        lines::lemma_move_line(rd, imm, zero);
        lemma_move_runs(machine, rd, imm);
        lemma_line_does(
            out,
            "    ctx->r[{}] = {}u; ctx->n = 0; ctx->z = {};"@,
            seq![text::dec(rd), text::dec(imm), text::dec(zero)],
            lines::move_line(rd, imm, zero),
            machine,
            with_sign(machine.with_register(rd as int, y), y),
        );
    } else if kind == 1 {
        lines::lemma_compare_line(rd, imm);
        lemma_comparison(machine, first, second_operand, x, y);
        assert(lines::compare_line(rd, imm) == comparison(first, second_operand));
        lemma_line_does(
            out,
            "    { uint32_t a = ctx->r[{}], b = {}u, r = a - b; {} }"@,
            seq![text::dec(rd), text::dec(imm), lower::SUB_FLAGS@],
            lines::compare_line(rd, imm),
            machine,
            with_flags(machine, difference(x, y)),
        );
    } else if kind == 2 {
        lines::lemma_add_immediate_line(rd, imm);
        lemma_arithmetic(machine, first, second_operand, false, rd, x, y);
        assert(lines::add_immediate_line(rd, imm) == arithmetic(first, second_operand, false, rd));
        lemma_line_does(
            out,
            "    { uint32_t a = ctx->r[{}], b = {}u, r = a + b; ctx->r[{}] = r; {} }"@,
            seq![text::dec(rd), text::dec(imm), text::dec(rd), lower::ADD_FLAGS@],
            lines::add_immediate_line(rd, imm),
            machine,
            with_flags(machine.with_register(rd as int, sum(x, y).result), sum(x, y)),
        );
    } else {
        lines::lemma_subtract_immediate_line(rd, imm);
        lemma_arithmetic(machine, first, second_operand, true, rd, x, y);
        assert(lines::subtract_immediate_line(rd, imm) == arithmetic(
            first,
            second_operand,
            true,
            rd,
        ));
        lemma_line_does(
            out,
            "    { uint32_t a = ctx->r[{}], b = {}u, r = a - b; ctx->r[{}] = r; {} }"@,
            seq![text::dec(rd), text::dec(imm), text::dec(rd), lower::SUB_FLAGS@],
            lines::subtract_immediate_line(rd, imm),
            machine,
            with_flags(machine.with_register(rd as int, difference(x, y).result), difference(x, y)),
        );
    }
}

proof fn lemma_move_runs(machine: Machine, rd: nat, imm: nat)
    requires
        rd < 8,
        imm < 256,
    ensures
        lines::move_line(
            rd,
            imm,
            if imm == 0 {
                1
            } else {
                0
            },
        ).run(machine) == with_sign(machine.with_register(rd as int, imm as u32), imm as u32),
{
    broadcast use group_running;

}

/// add and sub of a register and either another one or a 3 bit immediate.
pub proof fn law_add_subtract(
    out: Seq<char>,
    scope: Names,
    address: u32,
    op: u32,
    second: u32,
    machine: Machine,
)
    requires
        0x1800 <= op < 0x2000,
        sound(machine),
    ensures
        ({
            let code = lower::lower_code(out, scope, address, op, second);
            let rd = (op % 8) as int;
            let x = machine.r[(op / 8 % 8) as int];
            let field = op / 0x40 % 8;
            let y = if op / 0x400 % 2 == 1 {
                field
            } else {
                machine.r[field as int]
            };
            let total = if op / 0x200 % 2 == 1 {
                difference(x, y)
            } else {
                sum(x, y)
            };
            code.on && does(
                out,
                code.text,
                machine,
                with_flags(machine.with_register(rd, total.result), total),
            )
        }),
{
    lemma_fields(op);
    let rd = (op % 8) as nat;
    let rs = (op / 8 % 8) as nat;
    let field = op / 0x40 % 8;
    let immediate = op / 0x400 % 2 == 1;
    let minus = op / 0x200 % 2 == 1;
    let x = machine.r[rs as int];
    let y = if immediate {
        field
    } else {
        machine.r[field as int]
    };
    let b = if immediate {
        lines::unsigned_expression(field as nat)
    } else {
        crate::codegen::lines::register_expression(field as nat)
    };
    lines::lemma_unsigned_expression(field as nat);
    crate::codegen::lines::lemma_register_expression(field as nat);
    lemma_leaves(machine);
    lemma_leaves(machine.with_local(Name::A, word(x)));
    lemma_arithmetic(machine, Expression::Register(rs), b, minus, rd, x, y);
    let total = if minus {
        difference(x, y)
    } else {
        sum(x, y)
    };
    let after = with_flags(machine.with_register(rd as int, total.result), total);
    if minus {
        lines::lemma_subtract_line(rs, b, rd);
        assert(lines::subtract_line(rs, b, rd) == arithmetic(
            Expression::Register(rs),
            b,
            true,
            rd,
        ));
        lemma_line_does(
            out,
            "    { uint32_t a = ctx->r[{}], b = {}, r = a - b; ctx->r[{}] = r; {} }"@,
            seq![text::dec(rs), b.text(), text::dec(rd), lower::SUB_FLAGS@],
            lines::subtract_line(rs, b, rd),
            machine,
            after,
        );
    } else {
        lines::lemma_add_line(rs, b, rd);
        assert(lines::add_line(rs, b, rd) == arithmetic(Expression::Register(rs), b, false, rd));
        lemma_line_does(
            out,
            "    { uint32_t a = ctx->r[{}], b = {}, r = a + b; ctx->r[{}] = r; {} }"@,
            seq![text::dec(rs), b.text(), text::dec(rd), lower::ADD_FLAGS@],
            lines::add_line(rs, b, rd),
            machine,
            after,
        );
    }
}

/// lsl, lsr and asr by an immediate, which set the carry to the last bit that
/// goes out, and keep it when none does.
pub proof fn law_shifts(
    out: Seq<char>,
    scope: Names,
    address: u32,
    op: u32,
    second: u32,
    machine: Machine,
)
    requires
        op < 0x1800,
        sound(machine),
    ensures
        ({
            let code = lower::lower_code(out, scope, address, op, second);
            let rd = (op % 8) as int;
            let (result, carry) = shifted(
                op / 0x800,
                machine.r[(op / 8 % 8) as int],
                op / 0x40 % 32,
                machine.field(Field::C),
            );
            code.on && does(
                out,
                code.text,
                machine,
                with_sign(
                    machine.with_field(Field::C, carry).with_register(rd, result),
                    result,
                ),
            )
        }),
{
    lemma_fields(op);
    let rd = (op % 8) as nat;
    let rs = (op / 8 % 8) as nat;
    let kind = op / 0x800;
    let amount = op / 0x40 % 32;
    let carry = machine.field(Field::C);
    let value = machine.r[rs as int];
    let x = shifted_value(kind, amount);
    let y = shifted_carry(kind, amount);
    lemma_shifted_texts(kind, amount);
    let (result, carry_out) = shifted(kind, value, amount, carry);
    let after = with_sign(
        machine.with_field(Field::C, carry_out).with_register(rd as int, result),
        result,
    );
    let template = "    { uint32_t m = ctx->r[{}], r = {};{} ctx->r[{}] = r; {} }"@;
    lemma_shift_runs(machine, rs, kind, amount, rd);
    if kind == 0 && amount == 0 {
        lines::lemma_keep_line(rs, x, rd);
        lemma_line_does(
            out,
            template,
            seq![text::dec(rs), x.text(), ""@, text::dec(rd), lower::NZ@],
            lines::keep_line(rs, x, rd),
            machine,
            after,
        );
    } else {
        lines::lemma_shift_line(rs, x, y, rd);
        lemma_line_does(
            out,
            template,
            seq![
                text::dec(rs),
                x.text(),
                text::fill(" ctx->c = {};"@, seq![y.text()]),
                text::dec(rd),
                lower::NZ@,
            ],
            lines::shift_line(rs, x, y, rd),
            machine,
            after,
        );
    }
}

proof fn lemma_shift_runs(machine: Machine, rs: nat, kind: u32, amount: u32, rd: nat)
    requires
        kind <= 2,
        amount < 32,
        sound(machine),
    ensures
        ({
            let (result, carry) = shifted(
                kind,
                machine.r[rs as int],
                amount,
                machine.field(Field::C),
            );
            let x = shifted_value(kind, amount);
            let y = shifted_carry(kind, amount);
            let after = with_sign(
                machine.with_field(Field::C, carry).with_register(rd as int, result),
                result,
            );
            if kind == 0 && amount == 0 {
                lines::keep_line(rs, x, rd).run(machine).bare() == after.bare()
            } else {
                lines::shift_line(rs, x, y, rd).run(machine).bare() == after.bare()
            }
        }),
{
    let value = machine.r[rs as int];
    let carry = machine.field(Field::C);
    let (result, carry_out) = shifted(kind, value, amount, carry);
    let m_1 = machine.with_local(Name::M, word(value));
    let m_2 = m_1.with_local(Name::R, word(result));
    let m_3 = m_2.with_field(Field::C, carry_out);
    lemma_shifted_evals(m_1, kind, value, amount);
    lemma_shifted_evals(m_2, kind, value, amount);
    lemma_shift_range(kind, value, amount as int, carry);
    lemma_shift_range(kind, value, 32, carry);
    let m_4 = (if kind == 0 && amount == 0 {
        m_2
    } else {
        m_3
    }).with_register(rd as int, result);
    lemma_set_sign(m_4, result);
    broadcast use group_running;

    assert(machine.fields.insert(Field::C, carry) =~= machine.fields);
}

/// the C for an operation on two registers.
spec fn alu_line(kind: u32, rd: nat, rs: nat) -> Program {
    match kind {
        0 => lines::alu_and_line(rd, rs),
        1 => lines::alu_eor_line(rd, rs),
        2 => lines::alu_lsl_line(rd, rs),
        3 => lines::alu_lsr_line(rd, rs),
        4 => lines::alu_asr_line(rd, rs),
        5 => lines::alu_adc_line(rd, rs),
        6 => lines::alu_sbc_line(rd, rs),
        7 => lines::alu_ror_line(rd, rs),
        8 => lines::alu_tst_line(rd, rs),
        9 => lines::alu_neg_line(rd, rs),
        10 => lines::alu_cmp_line(rd, rs),
        11 => lines::alu_cmn_line(rd, rs),
        12 => lines::alu_orr_line(rd, rs),
        13 => lines::alu_mul_line(rd, rs),
        14 => lines::alu_bic_line(rd, rs),
        _ => lines::alu_mvn_line(rd, rs),
    }
}

proof fn lemma_alu_text(kind: u32, rd: nat, rs: nat)
    requires
        kind <= 15,
    ensures
        alu_line(kind, rd, rs).text() == text::fill(
            "    { uint32_t a = ctx->r[{}], b = ctx->r[{}], r; {} }"@,
            seq![text::dec(rd), text::dec(rs), lower::alu_text(kind, text::dec(rd))],
        ).push('\n'),
        alu_line(kind, rd, rs).grouped(),
{
    match kind {
        0 => {
            lines::lemma_alu_and_line(rd, rs);
        },
        1 => {
            lines::lemma_alu_eor_line(rd, rs);
        },
        2 => {
            lines::lemma_alu_lsl_line(rd, rs);
        },
        3 => {
            lines::lemma_alu_lsr_line(rd, rs);
        },
        4 => {
            lines::lemma_alu_asr_line(rd, rs);
        },
        5 => {
            lines::lemma_alu_adc_line(rd, rs);
        },
        6 => {
            lines::lemma_alu_sbc_line(rd, rs);
        },
        7 => {
            lines::lemma_alu_ror_line(rd, rs);
        },
        8 => {
            lines::lemma_alu_tst_line(rd, rs);
        },
        9 => {
            lines::lemma_alu_neg_line(rd, rs);
        },
        10 => {
            lines::lemma_alu_cmp_line(rd, rs);
        },
        11 => {
            lines::lemma_alu_cmn_line(rd, rs);
        },
        12 => {
            lines::lemma_alu_orr_line(rd, rs);
        },
        13 => {
            lines::lemma_alu_mul_line(rd, rs);
        },
        14 => {
            lines::lemma_alu_bic_line(rd, rs);
        },
        _ => {
            lines::lemma_alu_mvn_line(rd, rs);
        },
    }
}

/// the machine after an operation on two registers, x the first and y the
/// second.
pub open spec fn operated(machine: Machine, kind: u32, rd: int, x: u32, y: u32) -> Machine {
    let carry = machine.field(Field::C);
    let logical = |result: u32| with_sign(machine.with_register(rd, result), result);
    let added = |total: Sum| with_flags(machine.with_register(rd, total.result), total);
    let turned = |kind: u32|
        {
            let (result, out) = shift(shift_kind(kind), x, (y % 0x100) as int, carry);
            with_sign(machine.with_register(rd, result), result).with_field(Field::C, out)
        };
    match kind {
        // and, eor, lsl, lsr, asr, adc, sbc and ror
        0 => logical(x & y),
        1 => logical(x ^ y),
        2 => turned(0),
        3 => turned(1),
        4 => turned(2),
        5 => added(add_with_carry(x, y, carry)),
        6 => added(add_with_carry(x, inverted(y), carry)),
        7 => turned(3),
        // tst, neg, cmp, cmn, orr, mul, bic and mvn
        8 => with_sign(machine, x & y),
        9 => added(difference(0, y)),
        10 => with_flags(machine, difference(x, y)),
        11 => with_flags(machine, sum(x, y)),
        12 => logical(x | y),
        13 => logical(((x * y) % 0x1_0000_0000) as u32),
        14 => logical(x & inverted(y)),
        _ => logical(inverted(y)),
    }
}

/// the machine once a and b are declared.
spec fn declared(machine: Machine, x: u32, y: u32) -> Machine {
    machine.with_local(Name::A, word(x)).with_local(Name::B, word(y))
}

/// what the logical operations and mul give.
spec fn logical_result(kind: u32, x: u32, y: u32) -> u32 {
    match kind {
        0 => x & y,
        1 => x ^ y,
        12 => x | y,
        13 => ((x * y) % 0x1_0000_0000) as u32,
        14 => x & inverted(y),
        _ => inverted(y),
    }
}

/// the declaration that the operations start with.
proof fn lemma_declared(machine: Machine, rd: nat, rs: nat)
    ensures
        Statement::Declare(
            Type::U32,
            Declared::More(
                Name::A,
                Expression::Register(rd),
                Box::new(
                    Declared::More(
                        Name::B,
                        Expression::Register(rs),
                        Box::new(Declared::Bare(Name::R)),
                    ),
                ),
            ),
        ).run(machine) == declared(machine, machine.r[rd as int], machine.r[rs as int]),
{
    broadcast use group_running;

}

/// r is set to what an expression comes to.
proof fn lemma_set_result(machine: Machine, x: Expression, result: u32)
    requires
        x.eval(machine).number == result,
    ensures
        Statement::Assign(Place::Local(Name::R), x).run(machine) == machine.with_local(
            Name::R,
            word(result),
        ),
{
    broadcast use group_running;

}

/// the expression of a logical operation or mul.
spec fn logical_expression(kind: u32) -> Expression {
    let a = Box::new(Expression::Local(Name::A));
    let b = Box::new(Expression::Local(Name::B));
    match kind {
        0 => Expression::Two(Operator::And, a, b),
        1 => Expression::Two(Operator::Xor, a, b),
        12 => Expression::Two(Operator::Or, a, b),
        13 => Expression::Two(Operator::Times, a, b),
        14 => Expression::Two(Operator::And, a, Box::new(Expression::Flip(b))),
        _ => Expression::Flip(b),
    }
}

proof fn lemma_logical_evals(m: Machine, kind: u32, x: u32, y: u32)
    requires
        m.locals[Name::A] == word(x),
        m.locals[Name::B] == word(y),
    ensures
        logical_expression(kind).eval(m).number == logical_result(kind, x, y),
{
    broadcast use group_running;

    lemma_words(x, y);
    lemma_words(x, inverted(y));
    lemma_word_flipped(Expression::Local(Name::B), m, y);
}

proof fn lemma_logical_run(machine: Machine, kind: u32, rd: nat, rs: nat)
    requires
        rd < 8,
        rs < 8,
        kind == 0 || kind == 1 || kind == 12 || kind == 13 || kind == 14 || kind == 15,
    ensures
        alu_line(kind, rd, rs).run(machine).bare() == operated(
            machine,
            kind,
            rd as int,
            machine.r[rd as int],
            machine.r[rs as int],
        ).bare(),
{
    broadcast use group_steps;

    let x = machine.r[rd as int];
    let y = machine.r[rs as int];
    let m_0 = declared(machine, x, y);
    let result = logical_result(kind, x, y);
    lemma_declared(machine, rd, rs);
    lemma_logical_evals(m_0, kind, x, y);
    lemma_set_result(m_0, logical_expression(kind), result);
    let m_1 = m_0.with_local(Name::R, word(result));
    lemma_set_register(m_1, rd, Name::R, result);
    lemma_set_sign(m_1.with_register(rd as int, result), result);
}

proof fn lemma_compare_run(machine: Machine, kind: u32, rd: nat, rs: nat)
    requires
        rd < 8,
        rs < 8,
        kind == 8 || kind == 10 || kind == 11,
    ensures
        alu_line(kind, rd, rs).run(machine).bare() == operated(
            machine,
            kind,
            rd as int,
            machine.r[rd as int],
            machine.r[rs as int],
        ).bare(),
{
    let x = machine.r[rd as int];
    let y = machine.r[rs as int];
    let m_0 = declared(machine, x, y);
    let result = if kind == 8 {
        x & y
    } else if kind == 10 {
        difference(x, y).result
    } else {
        sum(x, y).result
    };
    lemma_declared(machine, rd, rs);
    lemma_compared_evals(m_0, kind, x, y);
    lemma_set_result(m_0, compared_expression(kind), result);
    let m_1 = m_0.with_local(Name::R, word(result));
    lemma_set_sign(m_1, result);
    if kind == 10 {
        lemma_set_difference_flags(with_sign(m_1, result), x, y);
    } else if kind == 11 {
        lemma_set_sum_flags(with_sign(m_1, result), x, y);
    }
    broadcast use group_steps;

}

/// the expression that a comparison sets the flags by.
spec fn compared_expression(kind: u32) -> Expression {
    let a = Box::new(Expression::Local(Name::A));
    let b = Box::new(Expression::Local(Name::B));
    match kind {
        8 => Expression::Two(Operator::And, a, b),
        10 => Expression::Two(Operator::Minus, a, b),
        _ => Expression::Two(Operator::Plus, a, b),
    }
}

proof fn lemma_compared_evals(m: Machine, kind: u32, x: u32, y: u32)
    requires
        m.locals[Name::A] == word(x),
        m.locals[Name::B] == word(y),
    ensures
        compared_expression(kind).eval(m).number == (if kind == 8 {
            x & y
        } else if kind == 10 {
            difference(x, y).result
        } else {
            sum(x, y).result
        }),
{
    broadcast use group_running;

    lemma_words(x, y);
}

proof fn lemma_turn_run(machine: Machine, kind: u32, rd: nat, rs: nat)
    requires
        rd < 8,
        rs < 8,
        sound(machine),
        kind == 2 || kind == 3 || kind == 4 || kind == 7,
    ensures
        alu_line(kind, rd, rs).run(machine).bare() == operated(
            machine,
            kind,
            rd as int,
            machine.r[rd as int],
            machine.r[rs as int],
        ).bare(),
{
    broadcast use group_steps;

    let x = machine.r[rd as int];
    let y = machine.r[rs as int];
    let number = if kind == 7 {
        3
    } else {
        (kind - 2) as u32
    };
    let carry = machine.field(Field::C);
    let (result, out) = shift(shift_kind(number), x, (y % 0x100) as int, carry);
    lemma_shift_range(number, x, (y % 0x100) as int, carry);
    lemma_declared(machine, rd, rs);
    let m_0 = declared(machine, x, y);
    let m_1 = m_0.with_local(Name::Sc, Value { of: Type::U8, number: carry });
    let m_2 = m_1.with_local(Name::Sc, Value { of: Type::U8, number: out }).with_local(
        Name::R,
        word(result),
    );
    lemma_carry_kept(m_0, carry);
    lemma_turned(m_1, number, x, y);
    lemma_set_register(m_2, rd, Name::R, result);
    lemma_set_sign(m_2.with_register(rd as int, result), result);
    lemma_carry_set(with_sign(m_2.with_register(rd as int, result), result), out);
}

proof fn lemma_carry_kept(m: Machine, carry: int)
    requires
        m.field(Field::C) == carry,
        0 <= carry <= 1,
    ensures
        Statement::Declare(
            Type::U8,
            Declared::One(Name::Sc, Expression::Field(Field::C)),
        ).run(m) == m.with_local(Name::Sc, Value { of: Type::U8, number: carry }),
        Statement::Declare(
            Type::U8,
            Declared::One(Name::Ci, Expression::Field(Field::C)),
        ).run(m) == m.with_local(Name::Ci, Value { of: Type::U8, number: carry }),
{
    broadcast use group_running;

}

proof fn lemma_carry_set(m: Machine, carry: int)
    requires
        m.locals[Name::Sc] == (Value { of: Type::U8, number: carry }),
        0 <= carry <= 1,
    ensures
        Statement::Assign(Place::Field(Field::C), Expression::Local(Name::Sc)).run(m)
            == m.with_field(Field::C, carry),
{
    broadcast use group_running;

}

proof fn lemma_turned(m: Machine, number: u32, x: u32, y: u32)
    requires
        number <= 3,
        m.locals[Name::A] == word(x),
        m.locals[Name::B] == word(y),
        m.locals[Name::Sc].number == 0 || m.locals[Name::Sc].number == 1,
    ensures
        ({
            let (result, out) = shift(
                shift_kind(number),
                x,
                (y % 0x100) as int,
                m.locals[Name::Sc].number,
            );
            Statement::SetShift(
                Name::R,
                shift_kind(number),
                Expression::Local(Name::A),
                Expression::Local(Name::B),
            ).run(m) == m.with_local(Name::Sc, Value { of: Type::U8, number: out }).with_local(
                Name::R,
                word(result),
            )
        }),
{
    broadcast use group_running;

    lemma_shift_range(number, x, (y % 0x100) as int, m.locals[Name::Sc].number);
}

proof fn lemma_negated_bits(b: u32, r: u32)
    by (bit_vector)
    requires
        r == (0 + (0xFFFF_FFFF - b) + 1) % 0x1_0000_0000,
    ensures
        (b & r) >> 31 == ((0 ^ b) & (0 ^ r)) >> 31,
        r == (0 - b) % 0x1_0000_0000,
{
}

proof fn lemma_negate_run(machine: Machine, rd: nat, rs: nat)
    requires
        rd < 8,
        rs < 8,
    ensures
        alu_line(9, rd, rs).run(machine).bare() == operated(
            machine,
            9,
            rd as int,
            machine.r[rd as int],
            machine.r[rs as int],
        ).bare(),
{
    let x = machine.r[rd as int];
    let y = machine.r[rs as int];
    let total = difference(0, y);
    let r = total.result;
    lemma_negated_bits(y, r);
    lemma_difference_bits(0, y, 1, r);
    lemma_words(0, y);
    lemma_zero_minus(y);
    lemma_words(y, r);
    lemma_shifted_words(y & r, 31);
    lemma_word_equals(y, 0);
    let m_0 = declared(machine, x, y).with_local(Name::R, word(r)).with_register(rd as int, r);
    lemma_set_sign(m_0, r);
    broadcast use group_running;

}

/// a number without a suffix becomes a word next to one.
proof fn lemma_zero_minus(y: u32)
    ensures
        Operator::Minus.apply(small(0), word(y)) == word(((0 - y) % 0x1_0000_0000) as u32),
{
    reveal(Operator::apply);
}

proof fn lemma_carry_run(machine: Machine, kind: u32, rd: nat, rs: nat)
    requires
        rd < 8,
        rs < 8,
        sound(machine),
        kind == 5 || kind == 6,
    ensures
        alu_line(kind, rd, rs).run(machine).bare() == operated(
            machine,
            kind,
            rd as int,
            machine.r[rd as int],
            machine.r[rs as int],
        ).bare(),
{
    let x = machine.r[rd as int];
    let y = machine.r[rs as int];
    let carry = machine.field(Field::C);
    let bit = Value { of: Type::U8, number: carry };
    let total = if kind == 5 {
        add_with_carry(x, y, carry)
    } else {
        add_with_carry(x, inverted(y), carry)
    };
    let r = total.result;
    let m_0 = declared(machine, x, y).with_local(Name::Ci, bit);
    lemma_declared(machine, rd, rs);
    lemma_carry_kept(declared(machine, x, y), carry);
    lemma_carrying_evals(m_0, x, y, carry);
    if kind == 5 {
        lemma_set_result(m_0, crate::codegen::lines::adc_expression(), r);
    } else {
        lemma_set_result(m_0, crate::codegen::lines::sbc_expression(), r);
    }
    let m_r = m_0.with_local(Name::R, word(r));
    lemma_set_register(m_r, rd, Name::R, r);
    let m_1 = m_r.with_register(rd as int, r);
    lemma_set_sign(m_1, r);
    let m_2 = with_sign(m_1, r);
    lemma_carry_statements(m_2, x, y, carry);
    let m_3 = m_2.with_field(Field::C, total.carry);
    if kind == 5 {
        lemma_sum_bits(x, y, carry as u32, r);
        lemma_set_overflow(m_3, x, y, r);
    } else {
        lemma_difference_bits(x, y, carry as u32, r);
        lemma_set_underflow(m_3, x, y, r);
    }
    broadcast use group_steps;

}

/// the register to register operations leave their register and the flags as
/// the operation does.
pub proof fn law_operations(
    out: Seq<char>,
    scope: Names,
    address: u32,
    op: u32,
    second: u32,
    machine: Machine,
)
    requires
        0x4000 <= op < 0x4400,
        sound(machine),
    ensures
        ({
            let code = lower::lower_code(out, scope, address, op, second);
            let rd = (op % 8) as int;
            let rs = (op / 8 % 8) as int;
            code.on && does(
                out,
                code.text,
                machine,
                operated(machine, op / 0x40 % 16, rd, machine.r[rd], machine.r[rs]),
            )
        }),
{
    lemma_fields(op);
    let rd = (op % 8) as nat;
    let rs = (op / 8 % 8) as nat;
    let kind = op / 0x40 % 16;
    lemma_alu_text(kind, rd, rs);
    if kind == 5 || kind == 6 {
        lemma_carry_run(machine, kind, rd, rs);
    } else if kind == 9 {
        lemma_negate_run(machine, rd, rs);
    } else if kind == 2 || kind == 3 || kind == 4 || kind == 7 {
        lemma_turn_run(machine, kind, rd, rs);
    } else if kind == 8 || kind == 10 || kind == 11 {
        lemma_compare_run(machine, kind, rd, rs);
    } else {
        lemma_logical_run(machine, kind, rd, rs);
    }
    lemma_line_does(
        out,
        "    { uint32_t a = ctx->r[{}], b = ctx->r[{}], r; {} }"@,
        seq![text::dec(rd), text::dec(rs), lower::alu_text(kind, text::dec(rd))],
        alu_line(kind, rd, rs),
        machine,
        operated(machine, kind, rd as int, machine.r[rd as int], machine.r[rs as int]),
    );
}

} // verus!
