//! what the C for ARM data processing instructions does.

use crate::arm;
use crate::codegen::architecture::{
    add_with_carry, adds, computed, difference, flag, four, inverted, only_compares, operand,
    processed, read, shifted, sound, sum, with_flags, with_sign,
};
use crate::codegen::arm as lower;
use crate::codegen::lines;
use crate::codegen::operands::{
    lemma_long_compared, lemma_long_high, lemma_long_plus, lemma_source, lemma_word_aligned,
    lemma_word_and_bit, lemma_word_flipped, lemma_word_lowest, lemma_word_signed, long, source,
};
use crate::codegen::running::{
    lemma_difference_bits, lemma_set_difference_flags, lemma_set_overflow, lemma_set_sign,
    lemma_set_sum_flags, lemma_set_underflow, lemma_shifted_words, lemma_sum_bits, lemma_words,
    word,
};
use crate::codegen::small_c;
use crate::codegen::small_c::{
    does, group_running, group_steps, grown, lemma_grown_does, lemma_grown_none, lemma_line_grown,
    rotated, Expression, Field, Machine, Name, Operator, Place, Program, Statement, Type, Value,
};
use crate::codegen::Names;
use crate::text;
use vstd::prelude::*;

verus! {

/// the bits of a shift.
pub proof fn lemma_shift_bits(v: u32, n: u32, c: u32)
    by (bit_vector)
    requires
        n < 32,
        c <= 1,
    ensures
        v >> 31 == v / 0x8000_0000,
        n == 0 ==> v << n == v,
        (c << 31) | (v >> 1) == v / 2 + c * 0x8000_0000,
        1 <= n ==> ((v >> n) | (v << ((32 - n) as u32))) / 0x8000_0000 == (v >> ((n - 1) as u32))
            % 2,
        1 <= n ==> n % 32 == n && ((32 - n) as u32) % 32 == 32 - n,
{
}

/// m shifted, as an expression.
pub open spec fn shifted_value(kind: u32, amount: u32) -> Expression {
    let n = amount as nat;
    if kind == 0 {
        if amount == 0 {
            lines::m_expression()
        } else {
            lines::left_expression(n)
        }
    } else if kind == 1 {
        if amount == 0 {
            lines::zero_expression()
        } else {
            lines::right_expression(n)
        }
    } else if kind == 2 {
        if amount == 0 {
            lines::all_signed_expression()
        } else {
            lines::signed_expression(n)
        }
    } else if amount == 0 {
        lines::through_expression()
    } else {
        lines::around_expression(n, (32 - n) as nat)
    }
}

/// the carry of a shift, as an expression.
pub open spec fn shifted_carry(kind: u32, amount: u32) -> Expression {
    if amount == 0 {
        if kind == 0 {
            lines::c_expression()
        } else if kind <= 2 {
            lines::top_expression()
        } else {
            lines::bottom_expression()
        }
    } else if kind == 0 {
        lines::bit_expression((32 - amount) as nat)
    } else {
        lines::bit_expression((amount - 1) as nat)
    }
}

pub proof fn lemma_shifted_texts(kind: u32, amount: u32)
    requires
        kind <= 3,
        amount < 32,
    ensures
        shifted_value(kind, amount).text() == lower::shifted_text(kind, amount).0,
        shifted_value(kind, amount).grouped(),
        shifted_carry(kind, amount).text() == lower::shifted_text(kind, amount).1,
        shifted_carry(kind, amount).grouped(),
{
    let n = amount as nat;
    if amount == 0 {
        lines::lemma_m_expression();
        lines::lemma_zero_expression();
        lines::lemma_all_signed_expression();
        lines::lemma_through_expression();
        lines::lemma_c_expression();
        lines::lemma_top_expression();
        lines::lemma_bottom_expression();
    } else {
        lines::lemma_left_expression(n);
        lines::lemma_right_expression(n);
        lines::lemma_signed_expression(n);
        lines::lemma_around_expression(n, (32 - n) as nat);
        lines::lemma_bit_expression((32 - amount) as nat);
        lines::lemma_bit_expression((amount - 1) as nat);
    }
}

proof fn lemma_bit_eval(m: Machine, value: u32, n: nat)
    requires
        m.locals[Name::M] == word(value),
        n < 32,
    ensures
        lines::bit_expression(n).eval(m) == word((value >> (n as u32)) % 2),
{
    broadcast use group_running;

    lemma_shifted_words(value, n);
    lemma_word_lowest(value >> (n as u32));
}

/// the C for a shift by an immediate gives what the shift gives.
pub proof fn lemma_shifted_evals(m: Machine, kind: u32, value: u32, amount: u32)
    requires
        kind <= 3,
        amount < 32,
        m.locals[Name::M] == word(value),
        0 <= m.field(Field::C) <= 1,
    ensures
        shifted_value(kind, amount).eval(m).number == shifted(
            kind,
            value,
            amount,
            m.field(Field::C),
        ).0,
        shifted_carry(kind, amount).eval(m).number == shifted(
            kind,
            value,
            amount,
            m.field(Field::C),
        ).1,
{
    broadcast use group_running;

    let n = amount as nat;
    let carry = m.field(Field::C);
    lemma_shift_bits(value, amount, carry as u32);
    if amount == 0 {
        lemma_shifted_words(value, 31);
        lemma_shifted_words(value, 1);
        lemma_word_lowest(value);
        lemma_word_signed(value, 31);
        assert(Expression::Cast(Type::U32, Box::new(Expression::Field(Field::C))).eval(m) == word(
            carry as u32,
        ));
        lemma_shifted_words(carry as u32, 31);
        lemma_words((carry as u32) << 31, value >> 1);
    } else {
        lemma_shifted_words(value, n);
        lemma_shifted_words(value, (32 - n) as nat);
        lemma_bit_eval(m, value, (32 - n) as nat);
        lemma_bit_eval(m, value, (n - 1) as nat);
        lemma_word_signed(value, n);
        lemma_words(value >> amount, value << ((32 - amount) as u32));
    }
}

proof fn lemma_operand_fields(op: u32)
    by (bit_vector)
    ensures
        op & 0xF == op % 16,
        (op >> 5) & 3 == (op >> 5) % 4,
        (op >> 8) & 0xF == (op >> 8) % 16,
        (op >> 7) & 0x1F == (op >> 7) % 32,
        (op >> 12) & 0xF == (op >> 12) % 16,
        (op >> 16) & 0xF == (op >> 16) % 16,
        (op >> 21) & 0xF == (op >> 21) % 16,
        op & 0xFF == op % 0x100,
        (op & (1u32 << 25) != 0) == ((op >> 25) % 2 == 1),
        (op & (1u32 << 20) != 0) == ((op >> 20) % 2 == 1),
        (op & (1u32 << 4) != 0) == ((op >> 4) % 2 == 1),
        (op & 0x0200_0FFF == 14) == ((op >> 25) % 2 == 0 && op % 0x1000 == 14),
        ((op >> 23) & 3 == 2) == (8 <= (op >> 21) % 16 <= 11),
{
}

proof fn lemma_rotations(value: u32, amount: u32)
    by (bit_vector)
    requires
        amount < 32,
    ensures
        amount == 0 ==> (value >> (amount % 32)) | (value << (((32 - amount % 32) as u32) % 32))
            == value,
        amount > 0 ==> (value >> (amount % 32)) | (value << (((32 - amount % 32) as u32) % 32)) == (
        value >> amount) | (value << ((32 - amount) as u32)),
        value >> 31 == value / 0x8000_0000,
        value >> 31 <= 1,
{
}

/// machine is like other but for its variables.
spec fn alike(machine: Machine, other: Machine) -> bool {
    machine.bare() == other.bare()
}

/// b is the operand, and sc its carry where that is needed.
spec fn has_operand(machine: Machine, value: (u32, int), carry: bool) -> bool {
    &&& machine.locals[Name::B] == word(value.0)
    &&& carry ==> machine.locals[Name::Sc] == (Value { of: Type::U8, number: value.1 })
}

/// the C for an immediate operand.
proof fn lemma_operand_immediate(
    out: Seq<char>,
    text: Seq<char>,
    scope: Names,
    a: u32,
    op: u32,
    carry: bool,
    before: Machine,
    middle: Machine,
) -> (end: Machine)
    requires
        flag(op, 25),
        grown(out, text, before, middle),
        alike(middle, before),
        sound(before),
    ensures
        grown(out, lower::shifter_operand_text(text, scope, a, op, carry), before, end),
        alike(end, before),
        has_operand(end, operand(before, scope.module is Some, a, op), carry),
{
    broadcast use group_running;

    lemma_operand_fields(op);
    let amount = (2 * four(op, 8)) as u32;
    lemma_rotations(op % 0x100, amount);
    let number = rotated(op % 0x100, amount);
    lemma_rotations(number, 0);
    assert(arm::immediate_of(op) == number);
    lines::lemma_b_hex_line(number as nat);
    let first = lines::b_hex_line(number as nat);
    let template = "    uint32_t b = 0x{}u;"@;
    lemma_line_grown(
        out,
        text,
        before,
        middle,
        first,
        template,
        seq![text::hex_wide(number as nat, 8)],
    );
    let next = first.run(middle);
    let written = text::emitted(text, template, seq![text::hex_wide(number as nat, 8)]);
    if !carry {
        next
    } else if four(op, 8) == 0 {
        lines::lemma_sc_c_line();
        lemma_line_grown(
            out,
            written,
            before,
            next,
            lines::sc_c_line(),
            "    uint8_t sc = ctx->c;"@,
            Seq::empty(),
        );
        lines::sc_c_line().run(next)
    } else {
        let top = Expression::Int((number >> 31) as nat);
        assert(top.text() == text::dec((number >> 31) as nat) && top.grouped()) by {
            reveal_with_fuel(Expression::text, 2);
            reveal_with_fuel(Expression::grouped, 2);
        }
        lines::lemma_sc_line(top);
        lemma_line_grown(
            out,
            written,
            before,
            next,
            lines::sc_line(top),
            "    uint8_t sc = {};"@,
            seq![text::dec((number >> 31) as nat)],
        );
        lines::sc_line(top).run(next)
    }
}

/// the line for a shift by a register.
spec fn shift_line(kind: u32, x: Expression, y: Expression) -> Program {
    if kind == 0 {
        lines::b_lsl_line(x, y)
    } else if kind == 1 {
        lines::b_lsr_line(x, y)
    } else if kind == 2 {
        lines::b_asr_line(x, y)
    } else {
        lines::b_ror_line(x, y)
    }
}

/// the C for an operand that is shifted by a register.
proof fn lemma_operand_register(
    out: Seq<char>,
    text: Seq<char>,
    scope: Names,
    a: u32,
    op: u32,
    carry: bool,
    before: Machine,
    middle: Machine,
) -> (end: Machine)
    requires
        !flag(op, 25),
        flag(op, 4),
        grown(out, text, before, middle),
        alike(middle, before),
        sound(before),
    ensures
        grown(out, lower::shifter_operand_text(text, scope, a, op, carry), before, end),
        alike(end, before),
        has_operand(end, operand(before, scope.module is Some, a, op), carry),
{
    broadcast use group_running;

    lemma_operand_fields(op);
    let kind = (op >> 5) % 4;
    let pc = a.wrapping_add(12);
    lines::lemma_sc_c_line();
    let first = lines::sc_c_line();
    lemma_line_grown(
        out,
        text,
        before,
        middle,
        first,
        "    uint8_t sc = ctx->c;"@,
        Seq::empty(),
    );
    let next = first.run(middle);
    let written = text::emitted(text, "    uint8_t sc = ctx->c;"@, Seq::empty());
    let x = source(scope, op % 16, pc);
    let y = source(scope, four(op, 8), pc);
    lemma_source(scope, op % 16, pc, next);
    lemma_source(scope, four(op, 8), pc, next);
    lines::lemma_b_lsl_line(x, y);
    lines::lemma_b_lsr_line(x, y);
    lines::lemma_b_asr_line(x, y);
    lines::lemma_b_ror_line(x, y);
    lemma_line_grown(
        out,
        written,
        before,
        next,
        shift_line(kind, x, y),
        "    uint32_t b = {}({}, {}, &sc);"@,
        seq![lower::shift_text(kind), x.text(), y.text()],
    );
    lemma_shift_range(
        kind,
        read(before, scope.module is Some, op % 16, pc),
        (read(before, scope.module is Some, four(op, 8), pc) % 0x100) as int,
        before.field(Field::C),
    );
    shift_line(kind, x, y).run(next)
}

/// what comes out of a shift is a bit.
pub proof fn lemma_shift_range(kind: u32, value: u32, amount: int, carry: int)
    requires
        0 <= carry <= 1,
        0 <= amount < 256,
    ensures
        ({
            let kind = crate::codegen::architecture::shift_kind(kind);
            0 <= small_c::shift(kind, value, amount, carry).1 <= 1
        }),
{
}

/// the C for an operand that is shifted by an immediate.
proof fn lemma_operand_shifted(
    out: Seq<char>,
    text: Seq<char>,
    scope: Names,
    a: u32,
    op: u32,
    carry: bool,
    before: Machine,
    middle: Machine,
) -> (end: Machine)
    requires
        !flag(op, 25),
        !flag(op, 4),
        grown(out, text, before, middle),
        alike(middle, before),
        sound(before),
    ensures
        grown(out, lower::shifter_operand_text(text, scope, a, op, carry), before, end),
        alike(end, before),
        has_operand(end, operand(before, scope.module is Some, a, op), carry),
{
    broadcast use group_running;

    lemma_operand_fields(op);
    let kind = (op >> 5) % 4;
    let amount = (op >> 7) % 32;
    let pc = a.wrapping_add(8);
    let value = read(before, scope.module is Some, op % 16, pc);
    let x = source(scope, op % 16, pc);
    lemma_source(scope, op % 16, pc, middle);
    lines::lemma_m_line(x);
    lemma_line_grown(
        out,
        text,
        before,
        middle,
        lines::m_line(x),
        "    uint32_t m = {};"@,
        seq![x.text()],
    );
    let first = lines::m_line(x).run(middle);
    let written = text::emitted(text, "    uint32_t m = {};"@, seq![x.text()]);
    assert(first.locals[Name::M] == word(value));
    lemma_shifted_texts(kind, amount);
    lemma_shifted_evals(first, kind, value, amount);
    let y = shifted_value(kind, amount);
    lines::lemma_b_line(y);
    lemma_line_grown(
        out,
        written,
        before,
        first,
        lines::b_line(y),
        "    uint32_t b = {};"@,
        seq![y.text()],
    );
    let next = lines::b_line(y).run(first);
    let after = text::emitted(written, "    uint32_t b = {};"@, seq![y.text()]);
    lemma_shift_range(kind, value, amount as int, before.field(Field::C));
    lemma_shift_range(kind, value, 32, before.field(Field::C));
    if carry {
        let z = shifted_carry(kind, amount);
        assert(next.locals[Name::M] == word(value));
        lemma_shifted_evals(next, kind, value, amount);
        lines::lemma_sc_line(z);
        lemma_line_grown(
            out,
            after,
            before,
            next,
            lines::sc_line(z),
            "    uint8_t sc = {};"@,
            seq![z.text()],
        );
        lines::sc_line(z).run(next)
    } else {
        next
    }
}

/// what an opcode computes, as an expression.
spec fn result(opcode: u32) -> Expression {
    match opcode {
        0 => lines::and_expression(),
        1 => lines::eor_expression(),
        2 => lines::sub_expression(),
        3 => lines::rsb_expression(),
        4 => lines::add_expression(),
        5 => lines::adc_expression(),
        6 => lines::sbc_expression(),
        7 => lines::rsc_expression(),
        8 => lines::and_expression(),
        9 => lines::eor_expression(),
        10 => lines::sub_expression(),
        11 => lines::add_expression(),
        12 => lines::orr_expression(),
        13 => lines::mov_expression(),
        14 => lines::bic_expression(),
        _ => lines::mvn_expression(),
    }
}

proof fn lemma_result_text(opcode: u32)
    requires
        opcode <= 15,
    ensures
        result(opcode).text() == lower::result_text(opcode),
        result(opcode).grouped(),
{
    lines::lemma_and_expression();
    lines::lemma_eor_expression();
    lines::lemma_sub_expression();
    lines::lemma_rsb_expression();
    lines::lemma_add_expression();
    lines::lemma_adc_expression();
    lines::lemma_sbc_expression();
    lines::lemma_rsc_expression();
    lines::lemma_orr_expression();
    lines::lemma_mov_expression();
    lines::lemma_bic_expression();
    lines::lemma_mvn_expression();
}

proof fn lemma_inverted(b: u32)
    by (bit_vector)
    ensures
        0xFFFF_FFFF - b == !b,
{
}

/// a, b and ci are what an instruction works on.
pub open spec fn has_inputs(m: Machine, a: u32, b: u32, carry: int) -> bool {
    &&& m.locals[Name::A] == word(a)
    &&& m.locals[Name::B] == word(b)
    &&& m.locals[Name::Ci] == (Value { of: Type::U8, number: carry })
    &&& 0 <= carry <= 1
}

proof fn lemma_logical_evals(m: Machine, a: u32, b: u32)
    requires
        m.locals[Name::A] == word(a),
        m.locals[Name::B] == word(b),
    ensures
        lines::and_expression().eval(m).number == a & b,
        lines::eor_expression().eval(m).number == a ^ b,
        lines::orr_expression().eval(m).number == a | b,
        lines::bic_expression().eval(m).number == a & inverted(b),
{
    broadcast use group_running;

    lemma_words(a, b);
    lemma_words(a, inverted(b));
    lemma_word_flipped(Expression::Local(Name::B), m, b);
}

proof fn lemma_move_evals(m: Machine, b: u32)
    requires
        m.locals[Name::B] == word(b),
    ensures
        lines::mov_expression().eval(m).number == b,
        lines::mvn_expression().eval(m).number == inverted(b),
{
    broadcast use group_running;

    lemma_word_flipped(Expression::Local(Name::B), m, b);
}

proof fn lemma_arithmetic_evals(m: Machine, a: u32, b: u32, carry: int)
    requires
        m.locals[Name::A] == word(a),
        m.locals[Name::B] == word(b),
    ensures
        lines::add_expression().eval(m).number == sum(a, b).result,
        lines::sub_expression().eval(m).number == difference(a, b).result,
        lines::rsb_expression().eval(m).number == difference(b, a).result,
{
    broadcast use group_running;

    lemma_words(a, b);
    lemma_words(b, a);
}

pub proof fn lemma_carrying_evals(m: Machine, a: u32, b: u32, carry: int)
    requires
        has_inputs(m, a, b, carry),
    ensures
        lines::adc_expression().eval(m).number == add_with_carry(a, b, carry).result,
        lines::sbc_expression().eval(m).number == add_with_carry(a, inverted(b), carry).result,
        lines::rsc_expression().eval(m).number == add_with_carry(b, inverted(a), carry).result,
{
    broadcast use group_running;

    let bit = Value { of: Type::U8, number: carry };
    let not = small_c::truth(carry == 0);
    lemma_words(a, b);
    lemma_words(b, a);
    lemma_word_and_bit(((a + b) % 0x1_0000_0000) as u32, bit);
    lemma_word_and_bit(((a - b) % 0x1_0000_0000) as u32, not);
    lemma_word_and_bit(((b - a) % 0x1_0000_0000) as u32, not);
    lemma_carried(a, b, carry);
    lemma_carried(b, a, carry);
}

proof fn lemma_carried(a: u32, b: u32, carry: int)
    requires
        0 <= carry <= 1,
    ensures
        ((a + b) % 0x1_0000_0000 + carry) % 0x1_0000_0000 == add_with_carry(a, b, carry).result,
        ((a - b) % 0x1_0000_0000 - small_c::truth(carry == 0).number) % 0x1_0000_0000
            == add_with_carry(a, inverted(b), carry).result,
{
    let not = small_c::truth(carry == 0).number;
    lemma_wrapped_twice(a + b, carry);
    lemma_wrapped_twice(a - b, -not);
    assert(a + inverted(b) + carry == a - b - not + 0x1_0000_0000);
    lemma_wrapped_once(a - b - not);
}

/// an address that has gone round once is the same.
pub proof fn lemma_wrapped_twice(x: int, y: int)
    ensures
        (x % 0x1_0000_0000 + y) % 0x1_0000_0000 == (x + y) % 0x1_0000_0000,
{
    vstd::arithmetic::div_mod::lemma_add_mod_noop(x, y, 0x1_0000_0000);
    vstd::arithmetic::div_mod::lemma_add_mod_noop(x % 0x1_0000_0000, y, 0x1_0000_0000);
    vstd::arithmetic::div_mod::lemma_mod_twice(x, 0x1_0000_0000);
}

proof fn lemma_wrapped_once(x: int)
    ensures
        (x + 0x1_0000_0000) % 0x1_0000_0000 == x % 0x1_0000_0000,
{
    vstd::arithmetic::div_mod::lemma_mod_add_multiples_vanish(x, 0x1_0000_0000);
}

/// the expression for the result comes to what the opcode computes.
proof fn lemma_result_evals(
    m: Machine,
    opcode: u32,
    a: u32,
    b: u32,
    carry: int,
    out: int,
    overflow: int,
)
    requires
        opcode <= 15,
        m.locals[Name::B] == word(b),
        opcode != 13 && opcode != 15 ==> m.locals[Name::A] == word(a),
        5 <= opcode <= 7 ==> has_inputs(m, a, b, carry),
    ensures
        result(opcode).eval(m).number == computed(opcode, a, b, carry, out, overflow).result,
{
    if opcode == 13 || opcode == 15 {
        lemma_move_evals(m, b);
    } else if 5 <= opcode <= 7 {
        lemma_carrying_evals(m, a, b, carry);
    } else {
        lemma_logical_evals(m, a, b);
        lemma_arithmetic_evals(m, a, b, carry);
    }
}

/// the line for the flags past the sign.
spec fn flags_line(opcode: u32) -> Program {
    match opcode {
        2 => lines::sub_flags_line(),
        3 => lines::rsb_flags_line(),
        4 => lines::add_flags_line(),
        5 => lines::adc_flags_line(),
        6 => lines::sbc_flags_line(),
        7 => lines::rsc_flags_line(),
        10 => lines::sub_flags_line(),
        11 => lines::add_flags_line(),
        _ => lines::logic_flags_line(),
    }
}

proof fn lemma_flags_text(opcode: u32)
    ensures
        flags_line(opcode).text() == text::fill(
            lower::flags_text(opcode),
            Seq::<Seq<char>>::empty(),
        ).push('\n'),
        flags_line(opcode).grouped(),
{
    lines::lemma_sub_flags_line();
    lines::lemma_rsb_flags_line();
    lines::lemma_add_flags_line();
    lines::lemma_adc_flags_line();
    lines::lemma_sbc_flags_line();
    lines::lemma_rsc_flags_line();
    lines::lemma_logic_flags_line();
}

/// the statement for the overflow flag of a difference the other way around.
proof fn lemma_reverse_underflow(m: Machine, a: u32, b: u32, r: u32)
    requires
        m.locals[Name::A] == word(a),
        m.locals[Name::B] == word(b),
        m.locals[Name::R] == word(r),
        ((b ^ a) & (b ^ r)) >> 31 <= 1,
    ensures
        Statement::Assign(Place::Field(Field::V), Expression::Two(Operator::Right, Box::new(Expression::Group(Box::new(Expression::Two(Operator::And, Box::new(Expression::Group(Box::new(Expression::Two(Operator::Xor, Box::new(Expression::Local(Name::B)), Box::new(Expression::Local(Name::A)))))), Box::new(Expression::Group(Box::new(Expression::Two(Operator::Xor, Box::new(Expression::Local(Name::B)), Box::new(Expression::Local(Name::R)))))))))), Box::new(Expression::Int(31)))).run(m) == m.with_field(Field::V, (((b ^ a) & (b ^ r)) >> 31) as int),
{
    broadcast use group_running;

    lemma_words(b, a);
    lemma_words(b, r);
    lemma_words(b ^ a, b ^ r);
    lemma_shifted_words((b ^ a) & (b ^ r), 31);
}

proof fn lemma_plain_flags(m: Machine, opcode: u32, a: u32, b: u32, carry: int)
    requires
        2 <= opcode <= 4 || opcode == 10 || opcode == 11,
        m.locals[Name::A] == word(a),
        m.locals[Name::B] == word(b),
        m.locals[Name::R] == word(computed(opcode, a, b, carry, 0, 0).result),
    ensures
        ({
            let total = computed(opcode, a, b, carry, 0, 0);
            flags_line(opcode).run(m) == m.with_field(Field::C, total.carry).with_field(
                Field::V,
                total.overflow,
            )
        }),
{
    broadcast use group_steps;

    if opcode == 4 || opcode == 11 {
        lemma_set_sum_flags(m, a, b);
    } else if opcode == 3 {
        let total = difference(b, a);
        lemma_difference_bits(b, a, 1, total.result);
        lemma_reverse_underflow(m.with_field(Field::C, total.carry), a, b, total.result);
        lemma_words(b, a);
        lemma_reverse_carry(m, a, b);
    } else {
        lemma_set_difference_flags(m, a, b);
    }
}

proof fn lemma_reverse_carry(m: Machine, a: u32, b: u32)
    requires
        m.locals[Name::A] == word(a),
        m.locals[Name::B] == word(b),
    ensures
        Statement::Assign(Place::Field(Field::C), Expression::Two(Operator::AtLeast, Box::new(Expression::Local(Name::B)), Box::new(Expression::Local(Name::A)))).run(m) == m.with_field(Field::C, difference(b, a).carry),
{
    broadcast use group_running;

    lemma_words(b, a);
}

pub proof fn lemma_carry_statements(m: Machine, a: u32, b: u32, carry: int)
    requires
        has_inputs(m, a, b, carry),
    ensures
        Statement::Assign(Place::Field(Field::C), Expression::Two(Operator::Right, Box::new(Expression::Group(Box::new(Expression::Two(Operator::Plus, Box::new(Expression::Two(Operator::Plus, Box::new(Expression::Cast(Type::U64, Box::new(Expression::Local(Name::A)))), Box::new(Expression::Local(Name::B)))), Box::new(Expression::Local(Name::Ci)))))), Box::new(Expression::Int(32)))).run(m) == m.with_field(Field::C, add_with_carry(a, b, carry).carry),
        Statement::Assign(Place::Field(Field::C), Expression::Two(Operator::AtLeast, Box::new(Expression::Cast(Type::U64, Box::new(Expression::Local(Name::A)))), Box::new(Expression::Two(Operator::Plus, Box::new(Expression::Cast(Type::U64, Box::new(Expression::Local(Name::B)))), Box::new(Expression::Not(Box::new(Expression::Local(Name::Ci)))))))).run(m) == m.with_field(Field::C, add_with_carry(a, inverted(b), carry).carry),
        Statement::Assign(Place::Field(Field::C), Expression::Two(Operator::AtLeast, Box::new(Expression::Cast(Type::U64, Box::new(Expression::Local(Name::B)))), Box::new(Expression::Two(Operator::Plus, Box::new(Expression::Cast(Type::U64, Box::new(Expression::Local(Name::A)))), Box::new(Expression::Not(Box::new(Expression::Local(Name::Ci)))))))).run(m) == m.with_field(Field::C, add_with_carry(b, inverted(a), carry).carry),
{
    broadcast use group_running;

    let bit = Value { of: Type::U8, number: carry };
    let not = small_c::truth(carry == 0);
    assert(small_c::value(Type::U64, a as int) == long(a as int));
    assert(small_c::value(Type::U64, b as int) == long(b as int));
    lemma_long_plus(a as int, word(b));
    lemma_long_plus((a + b) as int, bit);
    lemma_long_high(a + b + carry);
    lemma_long_plus(b as int, not);
    lemma_long_plus(a as int, not);
    lemma_long_compared(a as int, b + not.number);
    lemma_long_compared(b as int, a + not.number);
}

proof fn lemma_carrying_flags(m: Machine, opcode: u32, a: u32, b: u32, carry: int)
    requires
        5 <= opcode <= 7,
        has_inputs(m, a, b, carry),
        m.locals[Name::R] == word(computed(opcode, a, b, carry, 0, 0).result),
    ensures
        ({
            let total = computed(opcode, a, b, carry, 0, 0);
            flags_line(opcode).run(m) == m.with_field(Field::C, total.carry).with_field(
                Field::V,
                total.overflow,
            )
        }),
{
    broadcast use group_steps;

    let total = computed(opcode, a, b, carry, 0, 0);
    let next = m.with_field(Field::C, total.carry);
    lemma_carry_statements(m, a, b, carry);
    if opcode == 5 {
        lemma_sum_bits(a, b, carry as u32, total.result);
        lemma_set_overflow(next, a, b, total.result);
    } else if opcode == 6 {
        lemma_difference_bits(a, b, carry as u32, total.result);
        lemma_set_underflow(next, a, b, total.result);
    } else {
        lemma_difference_bits(b, a, carry as u32, total.result);
        lemma_reverse_underflow(next, a, b, total.result);
    }
}

/// the last line before the block closes.
proof fn lemma_written(
    m: Machine,
    flagged: Machine,
    opcode: u32,
    op: u32,
    r: u32,
)
    requires
        m.locals[Name::R] == word(r),
        alike(m, flagged),
    ensures
        ({
            let rd = four(op, 12);
            let aligned = (r - r % 4) as u32;
            &&& alike(
                lines::register_line(rd as nat).run(m),
                flagged.with_register(rd as int, r),
            )
            &&& alike(
                lines::back_line().run(m),
                flagged.with_register(15, aligned).leaving(small_c::Exit::Back),
            )
            &&& alike(
                lines::dispatch_line().run(m),
                flagged.leaving(small_c::Exit::Dispatch { target: aligned as int }),
            )
        }),
{
    broadcast use group_running;

    lemma_word_aligned(r);
    lemma_word_flipped(Expression::Unsigned(3), m, 3);
}

/// the instruction is a data processing one, none of those that share the
/// space. the four that compare always set the flags, and one that sets them
/// and writes pc is an exception return.
pub open spec fn is_data_processing(op: u32) -> bool {
    &&& op / 0x1000_0000 == arm::ALWAYS
    &&& op / 0x400_0000 % 4 == 0
    &&& flag(op, 25) || !flag(op, 4) || !flag(op, 7)
    &&& only_compares(four(op, 21)) ==> flag(op, 20)
    &&& !only_compares(four(op, 21)) && four(op, 12) == 15 ==> !flag(op, 20)
}

proof fn lemma_data_processing_space(op: u32)
    by (bit_vector)
    ensures
        op >> 28 == op / 0x1000_0000,
        op / 0x400_0000 % 4 == 0 ==> (op >> 25) & 7 == (op >> 25) % 2,
        (op & 0x90 == 0x90) == ((op >> 4) % 2 == 1 && (op >> 7) % 2 == 1),
{
}

/// the C for a data processing instruction leaves the machine as the
/// instruction does, its register, the flags and where execution goes.
pub proof fn law_data_processing(
    out: Seq<char>,
    scope: Names,
    address: u32,
    op: u32,
    machine: Machine,
)
    requires
        is_data_processing(op),
        sound(machine),
    ensures
        ({
            let code = lower::lower_code(out, scope, address, op);
            &&& code.on == (only_compares(four(op, 21)) || four(op, 12) != 15)
            &&& does(
                out,
                code.text,
                machine,
                processed(machine, scope.module is Some, address, op),
            )
        }),
{
    lemma_operand_fields(op);
    lemma_data_processing_space(op);
    let code = lower::data_processing_code(out, scope, address, op);
    assert(lower::lower_code(out, scope, address, op) == code);
    lemma_data_processing(out, scope, address, op, machine);
}

/// the address that r15 reads as.
spec fn pipeline(address: u32, op: u32) -> u32 {
    if !flag(op, 25) && flag(op, 4) {
        address.wrapping_add(12)
    } else {
        address.wrapping_add(8)
    }
}

/// the C up to where the inputs are known.
spec fn inputs_text(out: Seq<char>, scope: Names, address: u32, op: u32) -> Seq<char> {
    let opcode = four(op, 21);
    let opened = text::emitted(out, "    {"@, Seq::empty());
    let second = lower::shifter_operand_text(
        opened,
        scope,
        address,
        op,
        flag(op, 20) && lower::is_logical(opcode),
    );
    let first = if opcode == 13 || opcode == 15 {
        second
    } else {
        text::emitted(
            second,
            "    uint32_t a = {};"@,
            seq![scope.reg(four(op, 16), pipeline(address, op))],
        )
    };
    if 5 <= opcode <= 7 {
        text::emitted(first, "    uint8_t ci = ctx->c;"@, Seq::empty())
    } else {
        first
    }
}

proof fn lemma_inputs(out: Seq<char>, scope: Names, address: u32, op: u32, machine: Machine) -> (end:
    Machine)
    requires
        is_data_processing(op),
        sound(machine),
    ensures
        ({
            let opcode = four(op, 21);
            let (b, shifted_out) = operand(machine, scope.module is Some, address, op);
            let a = read(machine, scope.module is Some, four(op, 16), pipeline(address, op));
            &&& grown(out, inputs_text(out, scope, address, op), machine, end)
            &&& alike(end, machine)
            &&& end.locals[Name::B] == word(b)
            &&& 0 <= shifted_out <= 1
            &&& opcode != 13 && opcode != 15 ==> end.locals[Name::A] == word(a)
            &&& flag(op, 20) && lower::is_logical(opcode) ==> end.locals[Name::Sc] == (Value {
                of: Type::U8,
                number: shifted_out,
            })
            &&& 5 <= opcode <= 7 ==> has_inputs(end, a, b, machine.field(Field::C))
        }),
{
    lemma_operand_fields(op);
    let opcode = four(op, 21);
    let set_flags = flag(op, 20);
    let module = scope.module is Some;
    let pc = pipeline(address, op);
    lemma_operand_carry(machine, module, address, op);
    let (b, shifted_out) = operand(machine, module, address, op);
    let a = read(machine, module, four(op, 16), pc);
    let carry = machine.field(Field::C);
    let needs = set_flags && lower::is_logical(opcode);
    lemma_grown_none(out, machine);
    lines::lemma_open_line();
    lemma_line_grown(out, out, machine, machine, lines::open_line(), "    {"@, Seq::empty());
    let text_0 = text::emitted(out, "    {"@, Seq::empty());
    let m_0 = lines::open_line().run(machine);
    assert(m_0 == machine) by {
        broadcast use group_running;

    }
    let text_1 = lower::shifter_operand_text(text_0, scope, address, op, needs);
    let m_1 = if flag(op, 25) {
        lemma_operand_immediate(out, text_0, scope, address, op, needs, machine, m_0)
    } else if flag(op, 4) {
        lemma_operand_register(out, text_0, scope, address, op, needs, machine, m_0)
    } else {
        lemma_operand_shifted(out, text_0, scope, address, op, needs, machine, m_0)
    };
    let x = source(scope, four(op, 16), pc);
    lemma_source(scope, four(op, 16), pc, m_1);
    lines::lemma_a_line(x);
    let plain = opcode == 13 || opcode == 15;
    let text_2 = if plain {
        text_1
    } else {
        text::emitted(text_1, "    uint32_t a = {};"@, seq![scope.reg(four(op, 16), pc)])
    };
    let m_2 = if plain {
        m_1
    } else {
        lemma_line_grown(
            out,
            text_1,
            machine,
            m_1,
            lines::a_line(x),
            "    uint32_t a = {};"@,
            seq![x.text()],
        );
        lines::a_line(x).run(m_1)
    };
    assert(alike(m_2, machine) && m_2.locals[Name::B] == word(b) && (!plain
        ==> m_2.locals[Name::A] == word(a)) && (needs ==> m_2.locals[Name::Sc] == (Value {
        of: Type::U8,
        number: shifted_out,
    }))) by {
        broadcast use group_running;

    }
    lines::lemma_ci_line();
    let carries = 5 <= opcode <= 7;
    let text_3 = if carries {
        text::emitted(text_2, "    uint8_t ci = ctx->c;"@, Seq::empty())
    } else {
        text_2
    };
    let m_3 = if carries {
        lemma_line_grown(
            out,
            text_2,
            machine,
            m_2,
            lines::ci_line(),
            "    uint8_t ci = ctx->c;"@,
            Seq::empty(),
        );
        lines::ci_line().run(m_2)
    } else {
        m_2
    };
    assert(alike(m_3, machine) && m_3.locals[Name::B] == word(b) && (!plain
        ==> m_3.locals[Name::A] == word(a)) && (needs ==> m_3.locals[Name::Sc] == (Value {
        of: Type::U8,
        number: shifted_out,
    })) && (carries ==> has_inputs(m_3, a, b, carry))) by {
        broadcast use group_running;

    }
    m_3
}

proof fn lemma_operand_carry(machine: Machine, module: bool, address: u32, op: u32)
    requires
        sound(machine),
    ensures
        0 <= operand(machine, module, address, op).1 <= 1,
{
    let kind = (op >> 5) % 4;
    let pc = address.wrapping_add(12);
    lemma_shift_range(
        kind,
        read(machine, module, op % 16, pc),
        (read(machine, module, four(op, 8), pc) % 0x100) as int,
        machine.field(Field::C),
    );
    let value = read(machine, module, op % 16, address.wrapping_add(8));
    lemma_shift_range(kind, value, ((op >> 7) % 32) as int, machine.field(Field::C));
    lemma_shift_range(kind, value, 32, machine.field(Field::C));
}

proof fn lemma_data_processing(
    out: Seq<char>,
    scope: Names,
    address: u32,
    op: u32,
    machine: Machine,
)
    requires
        is_data_processing(op),
        sound(machine),
    ensures
        does(
            out,
            lower::data_processing_code(out, scope, address, op).text,
            machine,
            processed(machine, scope.module is Some, address, op),
        ),
{
    lemma_operand_fields(op);
    let opcode = four(op, 21);
    let module = scope.module is Some;
    let (b, shifted_out) = operand(machine, module, address, op);
    let a = read(machine, module, four(op, 16), pipeline(address, op));
    let carry = machine.field(Field::C);
    let overflow = machine.field(Field::V);
    let total = computed(opcode, a, b, carry, shifted_out, overflow);
    let m_3 = lemma_inputs(out, scope, address, op, machine);
    let text_3 = inputs_text(out, scope, address, op);
    let e = result(opcode);
    lemma_result_text(opcode);
    lemma_result_evals(m_3, opcode, a, b, carry, shifted_out, overflow);
    lines::lemma_r_line(e);
    lemma_line_grown(
        out,
        text_3,
        machine,
        m_3,
        lines::r_line(e),
        "    uint32_t r = {};"@,
        seq![e.text()],
    );
    let text_4 = text::emitted(text_3, "    uint32_t r = {};"@, seq![e.text()]);
    let m_4 = lines::r_line(e).run(m_3);
    assert(m_4 == m_3.with_local(Name::R, word(total.result))) by {
        broadcast use group_running;

    }
    lemma_data_processing_end(
        out,
        scope,
        address,
        op,
        machine,
        text_4,
        m_4,
        a,
        b,
        shifted_out,
    );
}

/// the flags and the register, from where the result is known.
proof fn lemma_data_processing_end(
    out: Seq<char>,
    scope: Names,
    address: u32,
    op: u32,
    machine: Machine,
    text_4: Seq<char>,
    m_4: Machine,
    a: u32,
    b: u32,
    shifted_out: int,
)
    requires
        is_data_processing(op),
        sound(machine),
        grown(out, text_4, machine, m_4),
        alike(m_4, machine),
        0 <= shifted_out <= 1,
        m_4.locals[Name::R] == word(
            computed(
                four(op, 21),
                a,
                b,
                machine.field(Field::C),
                shifted_out,
                machine.field(Field::V),
            ).result,
        ),
        m_4.locals[Name::B] == word(b),
        four(op, 21) != 13 && four(op, 21) != 15 ==> m_4.locals[Name::A] == word(a),
        flag(op, 20) && !adds(four(op, 21)) ==> m_4.locals[Name::Sc] == (Value {
            of: Type::U8,
            number: shifted_out,
        }),
        5 <= four(op, 21) <= 7 ==> has_inputs(m_4, a, b, machine.field(Field::C)),
    ensures
        ({
            let opcode = four(op, 21);
            let rd = four(op, 12);
            let total = computed(
                opcode,
                a,
                b,
                machine.field(Field::C),
                shifted_out,
                machine.field(Field::V),
            );
            let text_5 = if flag(op, 20) {
                text::emitted(
                    text::emitted(text_4, "    ctx->n = r >> 31; ctx->z = r == 0;"@, Seq::empty()),
                    lower::flags_text(opcode),
                    Seq::empty(),
                )
            } else {
                text_4
            };
            let text_6 = if only_compares(opcode) {
                text_5
            } else if rd != 15 {
                text::emitted(text_5, "    ctx->r[{}] = r;"@, seq![text::dec(rd as nat)])
            } else if opcode == 13 && !flag(op, 25) && op % 0x1000 == 14 {
                text::emitted(text_5, "    ctx->r[15] = r & ~3u; return;"@, Seq::empty())
            } else {
                text::emitted(text_5, "    target = r & ~3u; goto dispatch;"@, Seq::empty())
            };
            let flagged = if !flag(op, 20) {
                machine
            } else if adds(opcode) {
                with_flags(machine, total)
            } else {
                with_sign(machine, total.result).with_field(Field::C, total.carry)
            };
            let aligned = (total.result - total.result % 4) as u32;
            does(
                out,
                text::emitted(text_6, "    }"@, Seq::empty()),
                machine,
                if only_compares(opcode) {
                    flagged
                } else if rd != 15 {
                    flagged.with_register(rd as int, total.result)
                } else if opcode == 13 && !flag(op, 25) && op % 0x1000 == 14 {
                    flagged.with_register(15, aligned).leaving(small_c::Exit::Back)
                } else {
                    flagged.leaving(small_c::Exit::Dispatch { target: aligned as int })
                },
            )
        }),
{
    let opcode = four(op, 21);
    let rd = four(op, 12);
    let carry = machine.field(Field::C);
    let total = computed(opcode, a, b, carry, shifted_out, machine.field(Field::V));
    let sign = "    ctx->n = r >> 31; ctx->z = r == 0;"@;
    let none = Seq::<Seq<char>>::empty();
    let flagged = if !flag(op, 20) {
        machine
    } else if adds(opcode) {
        with_flags(machine, total)
    } else {
        with_sign(machine, total.result).with_field(Field::C, total.carry)
    };
    let text_5 = if flag(op, 20) {
        text::emitted(text::emitted(text_4, sign, none), lower::flags_text(opcode), none)
    } else {
        text_4
    };
    let m_5 = if flag(op, 20) {
        lines::lemma_sign_line();
        lemma_line_grown(out, text_4, machine, m_4, lines::sign_line(), sign, none);
        let signed = lines::sign_line().run(m_4);
        assert(signed == with_sign(m_4, total.result)) by {
            broadcast use group_steps;

            lemma_set_sign(m_4, total.result);
        }
        lemma_flags_text(opcode);
        lemma_line_grown(
            out,
            text::emitted(text_4, sign, none),
            machine,
            signed,
            flags_line(opcode),
            lower::flags_text(opcode),
            none,
        );
        if 5 <= opcode <= 7 {
            lemma_carrying_flags(signed, opcode, a, b, carry);
        } else if adds(opcode) {
            lemma_plain_flags(signed, opcode, a, b, carry);
        } else {
            assert(flags_line(opcode).run(signed) == signed.with_field(Field::C, shifted_out)) by {
                broadcast use group_running;

            }
        }
        flags_line(opcode).run(signed)
    } else {
        m_4
    };
    assert(alike(m_5, flagged));
    assert(m_5.locals[Name::R] == word(total.result));
    lemma_written(m_5, flagged, opcode, op, total.result);
    let text_6 = if only_compares(opcode) {
        text_5
    } else if rd != 15 {
        text::emitted(text_5, "    ctx->r[{}] = r;"@, seq![text::dec(rd as nat)])
    } else if opcode == 13 && !flag(op, 25) && op % 0x1000 == 14 {
        text::emitted(text_5, "    ctx->r[15] = r & ~3u; return;"@, none)
    } else {
        text::emitted(text_5, "    target = r & ~3u; goto dispatch;"@, none)
    };
    let m_6 = if only_compares(opcode) {
        m_5
    } else if rd != 15 {
        lines::lemma_register_line(rd as nat);
        lemma_line_grown(
            out,
            text_5,
            machine,
            m_5,
            lines::register_line(rd as nat),
            "    ctx->r[{}] = r;"@,
            seq![text::dec(rd as nat)],
        );
        lines::register_line(rd as nat).run(m_5)
    } else if opcode == 13 && !flag(op, 25) && op % 0x1000 == 14 {
        lines::lemma_back_line();
        lemma_line_grown(
            out,
            text_5,
            machine,
            m_5,
            lines::back_line(),
            "    ctx->r[15] = r & ~3u; return;"@,
            none,
        );
        lines::back_line().run(m_5)
    } else {
        lines::lemma_dispatch_line();
        lemma_line_grown(
            out,
            text_5,
            machine,
            m_5,
            lines::dispatch_line(),
            "    target = r & ~3u; goto dispatch;"@,
            none,
        );
        lines::dispatch_line().run(m_5)
    };
    lines::lemma_close_line();
    lemma_line_grown(out, text_6, machine, m_6, lines::close_line(), "    }"@, none);
    assert(lines::close_line().run(m_6) == m_6) by {
        broadcast use group_steps;

    }
    let aligned = (total.result - total.result % 4) as u32;
    let after = if only_compares(opcode) {
        flagged
    } else if rd != 15 {
        flagged.with_register(rd as int, total.result)
    } else if opcode == 13 && !flag(op, 25) && op % 0x1000 == 14 {
        flagged.with_register(15, aligned).leaving(small_c::Exit::Back)
    } else {
        flagged.leaving(small_c::Exit::Dispatch { target: aligned as int })
    };
    lemma_grown_does(out, text::emitted(text_6, "    }"@, none), machine, m_6, after);
}

} // verus!
