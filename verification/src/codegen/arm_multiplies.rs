//! what the C for ARM multiplies and for counting zeros does.

use crate::arm::laws::{condition, kind};
use crate::codegen::architecture::{flag, four, read, signed, sound, with_sign};
use crate::codegen::arm as lower;
use crate::codegen::branches::lemma_arm_fields;
use crate::codegen::multiply_lines as lines;
use crate::codegen::operands::{lemma_long_high, lemma_source, long, source};
use crate::codegen::running::{lemma_set_register, lemma_set_sign, lemma_words, small, word};
use crate::codegen::small_c;
use crate::codegen::small_c::{
    does, group_running, group_steps, leading_zeros, lemma_eval_call, lemma_line_does, Declared,
    Expression, Field, Machine, Name, Operator, Place, Program, Statement, Type, Value,
};
use crate::codegen::Names;
use crate::text;
use vstd::prelude::*;

verus! {

proof fn lemma_multiply_fields(op: u32)
    by (bit_vector)
    ensures
        (op >> 4) % 16 == 9 ==> op & 0x90 == 0x90 && (op >> 5) & 3 == 0,
        (op >> 21) % 16 <= 7 ==> op & (1u32 << 24) == 0 && (op >> 21) & 7 == (op >> 21) % 16,
        (op >> 21) % 16 <= 1 ==> (op & (1u32 << 21) != 0) == ((op >> 21) % 16 == 1),
        (op >> 21) % 16 == 11 && (op >> 20) % 2 == 0 && (op >> 4) % 16 == 1 ==> op & 0x90 != 0x90
            && (op >> 23) & 3 == 2 && op & (1u32 << 20) == 0 && (op >> 4) & 0xF == 1 && (op >> 21)
            & 3 == 3,
{
}

/// the line for mul and mla.
spec fn multiply_line(x: Expression, y: Expression, z: Expression, more: bool, signs: bool, rd: nat) -> Program {
    if more {
        if signs {
            lines::multiply_add_signs_line(x, y, z, rd)
        } else {
            lines::multiply_add_line(x, y, z, rd)
        }
    } else if signs {
        lines::multiply_signs_line(x, y, rd)
    } else {
        lines::multiply_line(x, y, rd)
    }
}

spec fn multiply_expression(x: Expression, y: Expression, z: Expression, more: bool) -> Expression {
    let product = Expression::Two(Operator::Times, Box::new(x), Box::new(y));
    if more {
        Expression::Two(Operator::Plus, Box::new(product), Box::new(z))
    } else {
        product
    }
}

proof fn lemma_multiply_run(
    machine: Machine,
    x: Expression,
    y: Expression,
    z: Expression,
    more: bool,
    signs: bool,
    rd: nat,
    result: u32,
)
    requires
        multiply_expression(x, y, z, more).eval(machine) == word(result),
    ensures
        multiply_line(x, y, z, more, signs, rd).run(machine).bare() == (if signs {
            with_sign(machine.with_register(rd as int, result), result)
        } else {
            machine.with_register(rd as int, result)
        }).bare(),
{
    broadcast use group_steps;

    let e = multiply_expression(x, y, z, more);
    let m_0 = machine.with_local(Name::R, word(result));
    assert(Statement::Declare(Type::U32, Declared::One(Name::R, e)).run(machine) == m_0) by {
        broadcast use group_running;

    }
    lemma_set_register(m_0, rd, Name::R, result);
    let m_1 = m_0.with_register(rd as int, result);
    lemma_set_sign(m_1, result);
}

/// mul and mla leave the low half of the product, with a register added to it.
pub proof fn law_multiplies(
    out: Seq<char>,
    scope: Names,
    address: u32,
    op: u32,
    machine: Machine,
)
    requires
        condition(op) == 14,
        kind(op) == 0,
        (op >> 4) % 16 == 9,
        four(op, 21) <= 1,
        four(op, 16) != 15,
        sound(machine),
    ensures
        ({
            let code = lower::lower_code(out, scope, address, op);
            let module = scope.module is Some;
            let pc = address.wrapping_add(8);
            let x = read(machine, module, op % 16, pc);
            let y = read(machine, module, four(op, 8), pc);
            let z = read(machine, module, four(op, 12), pc);
            let rd = four(op, 16) as int;
            let result = ((x * y + if four(op, 21) == 1 {
                z as int
            } else {
                0
            }) % 0x1_0000_0000) as u32;
            code.on && does(
                out,
                code.text,
                machine,
                if flag(op, 20) {
                    with_sign(machine.with_register(rd, result), result)
                } else {
                    machine.with_register(rd, result)
                },
            )
        }),
{
    let pc = address.wrapping_add(8);
    let module = scope.module is Some;
    let (rm, rs, rn) = (op % 16, four(op, 8), four(op, 12));
    let rd = four(op, 16);
    let more = four(op, 21) == 1;
    let signs = flag(op, 20);
    let (x, y, z) = (source(scope, rm, pc), source(scope, rs, pc), source(scope, rn, pc));
    let (a, b, c) = (
        read(machine, module, rm, pc),
        read(machine, module, rs, pc),
        read(machine, module, rn, pc),
    );
    lemma_source(scope, rm, pc, machine);
    lemma_source(scope, rs, pc, machine);
    lemma_source(scope, rn, pc, machine);
    lemma_multiply_text(out, scope, address, op);
    let low = ((a * b) % 0x1_0000_0000) as u32;
    let result = ((a * b + if more {
        c as int
    } else {
        0
    }) % 0x1_0000_0000) as u32;
    lemma_words(a, b);
    lemma_words(low, c);
    if more {
        crate::codegen::arm_meaning::lemma_wrapped_twice(a * b, c as int);
    }
    assert(multiply_expression(x, y, z, more).eval(machine) == word(result)) by {
        broadcast use group_running;

    }
    lemma_multiply_run(machine, x, y, z, more, signs, rd as nat, result);
    let after = if signs {
        with_sign(machine.with_register(rd as int, result), result)
    } else {
        machine.with_register(rd as int, result)
    };
    lemma_multiply_lines(x, y, z, more, signs, rd as nat);
    lemma_line_does(
        out,
        "    { uint32_t r = {}{}; ctx->r[{}] = r;{} }"@,
        multiply_args(x.text(), y.text(), z.text(), more, signs, rd),
        multiply_line(x, y, z, more, signs, rd as nat),
        machine,
        after,
    );
}

spec fn multiply_args(
    x: Seq<char>,
    y: Seq<char>,
    z: Seq<char>,
    more: bool,
    signs: bool,
    rd: u32,
) -> Seq<Seq<char>> {
    seq![
        text::fill("{} * {}"@, seq![x, y]),
        if more {
            text::fill(" + {}"@, seq![z])
        } else {
            ""@
        },
        text::dec(rd as nat),
        if signs {
            " ctx->n = r >> 31; ctx->z = r == 0;"@
        } else {
            ""@
        },
    ]
}

proof fn lemma_multiply_lines(
    x: Expression,
    y: Expression,
    z: Expression,
    more: bool,
    signs: bool,
    rd: nat,
)
    requires
        x.grouped() && x.strength() == 16,
        y.grouped() && y.strength() == 16,
        z.grouped() && z.strength() == 16,
        rd < 16,
    ensures
        multiply_line(x, y, z, more, signs, rd).grouped(),
        multiply_line(x, y, z, more, signs, rd).text() == text::fill(
            "    { uint32_t r = {}{}; ctx->r[{}] = r;{} }"@,
            multiply_args(x.text(), y.text(), z.text(), more, signs, rd as u32),
        ).push('\n'),
{
    if more {
        if signs {
            lines::lemma_multiply_add_signs_line(x, y, z, rd);
        } else {
            lines::lemma_multiply_add_line(x, y, z, rd);
        }
    } else if signs {
        lines::lemma_multiply_signs_line(x, y, rd);
    } else {
        lines::lemma_multiply_line(x, y, rd);
    }
}

proof fn lemma_multiply_text(out: Seq<char>, scope: Names, address: u32, op: u32)
    requires
        condition(op) == 14,
        kind(op) == 0,
        (op >> 4) % 16 == 9,
        four(op, 21) <= 1,
        four(op, 16) != 15,
    ensures
        ({
            let pc = address.wrapping_add(8);
            let code = lower::lower_code(out, scope, address, op);
            code.on && code.text == text::emitted(
                out,
                "    { uint32_t r = {}{}; ctx->r[{}] = r;{} }"@,
                multiply_args(
                    scope.reg(op % 16, pc),
                    scope.reg(four(op, 8), pc),
                    scope.reg(four(op, 12), pc),
                    four(op, 21) == 1,
                    flag(op, 20),
                    four(op, 16),
                ),
            )
        }),
{
    lemma_arm_fields(op);
    lemma_multiply_fields(op);
}

/// two registers as one number.
pub open spec fn paired(machine: Machine, hi: u32, lo: u32) -> int {
    machine.r[hi as int] * 0x1_0000_0000 + machine.r[lo as int]
}

/// what umaal, umull, umlal, smull and smlal compute, by their numbers.
pub open spec fn long_product(machine: Machine, kind: u32, x: u32, y: u32, hi: u32, lo: u32) -> int {
    (match kind {
        2 => x * y + machine.r[lo as int] + machine.r[hi as int],
        4 => x * y,
        5 => x * y + paired(machine, hi, lo),
        6 => signed(x) * signed(y),
        _ => signed(x) * signed(y) + paired(machine, hi, lo),
    }) % 0x1_0000_0000_0000_0000
}

spec fn long_expression(kind: u32, x: Expression, y: Expression, hi: nat, lo: nat) -> Expression {
    match kind {
        2 => lines::umaal(x, y, hi, lo),
        4 => lines::umull(x, y),
        5 => lines::umlal(x, y, hi, lo),
        6 => lines::smull(x, y),
        _ => lines::smlal(x, y, hi, lo),
    }
}

proof fn lemma_long_text(kind: u32, x: Expression, y: Expression, hi: u32, lo: u32)
    requires
        x.grouped() && x.strength() == 16,
        y.grouped() && y.strength() == 16,
        kind == 2 || 4 <= kind <= 7,
    ensures
        long_expression(kind, x, y, hi as nat, lo as nat).grouped(),
        long_expression(kind, x, y, hi as nat, lo as nat).text() == lower::long_text(
            kind,
            x.text(),
            y.text(),
            hi,
            lo,
        ),
{
    let (h, l) = (hi as nat, lo as nat);
    if kind == 2 {
        lines::lemma_umaal(x, y, h, l);
    } else if kind == 4 {
        lines::lemma_umull(x, y);
    } else if kind == 5 {
        lines::lemma_umlal(x, y, h, l);
    } else if kind == 6 {
        lines::lemma_smull(x, y);
    } else {
        lines::lemma_smlal(x, y, h, l);
    }
}

proof fn lemma_product_bounds(x: u32, y: u32)
    ensures
        0 <= x * y <= 0xFFFF_FFFE_0000_0001,
        -0x4000_0000_0000_0000 <= signed(x) * signed(y) <= 0x4000_0000_0000_0000,
{
    assert(0 <= x * y <= 0xFFFF_FFFF * 0xFFFF_FFFF) by (nonlinear_arith)
        requires
            0 <= x <= 0xFFFF_FFFF,
            0 <= y <= 0xFFFF_FFFF,
    ;
    let (a, b) = (signed(x), signed(y));
    assert(-0x4000_0000_0000_0000 <= a * b <= 0x4000_0000_0000_0000) by (nonlinear_arith)
        requires
            -0x8000_0000 <= a <= 0x7FFF_FFFF,
            -0x8000_0000 <= b <= 0x7FFF_FFFF,
    ;
}

/// an operation on two numbers without a sign, one of them long.
proof fn lemma_long_apply(x: int, y: Value)
    requires
        0 <= x < 0x1_0000_0000_0000_0000,
        0 <= y.number < 0x1_0000_0000_0000_0000,
        y.of is U32 || y.of is U64,
    ensures
        Operator::Times.apply(long(x), y) == small_c::value(Type::U64, x * y.number),
        Operator::Plus.apply(long(x), y) == small_c::value(Type::U64, x + y.number),
{
    assert(Type::U64.with(y.of) == Type::U64);
    assert(Type::U64.holds(x) == x);
    assert(Type::U64.holds(y.number) == y.number);
    reveal(Operator::apply);
}

proof fn lemma_long_pair_bits(hi: u64, lo: u64)
    by (bit_vector)
    requires
        hi <= 0xFFFF_FFFF,
        lo <= 0xFFFF_FFFF,
    ensures
        (hi << 32) | lo == hi * 0x1_0000_0000 + lo,
        hi << 32 == hi * 0x1_0000_0000,
{
}

spec fn pair_expression(hi: nat, lo: nat) -> Expression {
    Expression::Group(
        Box::new(
            Expression::Two(
                Operator::Or,
                Box::new(
                    Expression::Two(
                        Operator::Left,
                        Box::new(
                            Expression::Cast(Type::U64, Box::new(Expression::Register(hi))),
                        ),
                        Box::new(Expression::Int(32)),
                    ),
                ),
                Box::new(Expression::Register(lo)),
            ),
        ),
    )
}

proof fn lemma_long_left(hi: u32)
    ensures
        Operator::Left.apply(long(hi as int), small(32)) == long(hi * 0x1_0000_0000),
{
    lemma_long_pair_bits(hi as u64, 0);
    assert(Operator::Left.apply(long(hi as int), small(32)) == small_c::shifted_left(
        long(hi as int),
        32,
    )) by {
        reveal(Operator::apply);
    }
    reveal(small_c::shifted_left);
}

proof fn lemma_long_or(hi: u32, lo: u32)
    ensures
        Operator::Or.apply(long(hi * 0x1_0000_0000), word(lo)) == long(hi * 0x1_0000_0000 + lo),
{
    let high = hi * 0x1_0000_0000;
    lemma_long_pair_bits(hi as u64, lo as u64);
    assert(Type::U64.with(Type::U32) == Type::U64);
    assert(Type::U64.holds(high) == high && Type::U64.holds(lo as int) == lo);
    assert(Operator::Or.apply(long(high), word(lo)) == small_c::value(
        Type::U64,
        (Type::U64.holds(high) as u64 | Type::U64.holds(lo as int) as u64) as int,
    )) by {
        reveal(Operator::apply);
    }
}

proof fn lemma_pair_evals(m: Machine, hi: nat, lo: nat)
    ensures
        pair_expression(hi, lo).eval(m) == long(
            m.r[hi as int] * 0x1_0000_0000 + m.r[lo as int],
        ),
{
    lemma_long_left(m.r[hi as int]);
    lemma_long_or(m.r[hi as int], m.r[lo as int]);
    assert(Expression::Cast(Type::U64, Box::new(Expression::Register(hi))).eval(m) == long(
        m.r[hi as int] as int,
    )) by {
        broadcast use group_running;

    }
    broadcast use group_running;

}

proof fn lemma_signed_held(x: u32)
    ensures
        Type::I32.holds(x as int) == signed(x),
        Type::I64.holds(signed(x)) == signed(x),
{
}

/// the signed product of two registers.
proof fn lemma_signed_product(x: u32, y: u32)
    ensures
        ({
            let a = small_c::value(Type::I64, signed(x));
            let b = small_c::value(Type::I32, y as int);
            Operator::Times.apply(a, b) == small_c::value(Type::I64, signed(x) * signed(y))
        }),
        Type::U64.holds(Type::I64.holds(signed(x) * signed(y))) == (signed(x) * signed(y))
            % 0x1_0000_0000_0000_0000,
{
    lemma_signed_held(x);
    lemma_signed_held(y);
    lemma_product_bounds(x, y);
    assert(Type::I64.with(Type::I32) == Type::I64);
    let a = small_c::value(Type::I64, signed(x));
    let b = small_c::value(Type::I32, y as int);
    assert(Operator::Times.apply(a, b) == small_c::value(
        Type::I64,
        Type::I64.holds(signed(x)) * Type::I64.holds(signed(y)),
    )) by {
        reveal(Operator::apply);
    }
}

proof fn lemma_unsigned_evals(m: Machine, x: Expression, y: Expression, a: u32, b: u32)
    requires
        x.eval(m) == word(a),
        y.eval(m) == word(b),
    ensures
        lines::umull(x, y).eval(m) == long(a * b),
{
    lemma_product_bounds(a, b);
    lemma_long_apply(a as int, word(b));
    assert(Expression::Cast(Type::U64, Box::new(x)).eval(m) == long(a as int)) by {
        broadcast use group_running;

    }
    broadcast use group_running;

}

proof fn lemma_signed_evals(m: Machine, x: Expression, y: Expression, a: u32, b: u32)
    requires
        x.eval(m) == word(a),
        y.eval(m) == word(b),
    ensures
        lines::smull(x, y).eval(m) == long((signed(a) * signed(b)) % 0x1_0000_0000_0000_0000),
{
    lemma_signed_product(a, b);
    lemma_signed_held(a);
    let one = Expression::Cast(Type::I32, Box::new(x));
    let wide = Expression::Cast(Type::I64, Box::new(one));
    let other = Expression::Cast(Type::I32, Box::new(y));
    small_c::lemma_eval_cast(Type::I32, Box::new(x), m);
    small_c::lemma_eval_cast(Type::I64, Box::new(one), m);
    small_c::lemma_eval_cast(Type::I32, Box::new(y), m);
    let product = Expression::Two(Operator::Times, Box::new(wide), Box::new(other));
    small_c::lemma_eval_two(Operator::Times, Box::new(wide), Box::new(other), m);
    let group = Expression::Group(Box::new(product));
    small_c::lemma_eval_group(Box::new(product), m);
    small_c::lemma_eval_cast(Type::U64, Box::new(group), m);
    assert(lines::smull(x, y) == Expression::Cast(Type::U64, Box::new(group)));
}

proof fn lemma_long_evals(
    m: Machine,
    kind: u32,
    x: Expression,
    y: Expression,
    a: u32,
    b: u32,
    hi: u32,
    lo: u32,
)
    requires
        kind == 2 || 4 <= kind <= 7,
        x.eval(m) == word(a),
        y.eval(m) == word(b),
    ensures
        long_expression(kind, x, y, hi as nat, lo as nat).eval(m) == long(
            long_product(m, kind, a, b, hi, lo),
        ),
{
    lemma_product_bounds(a, b);
    lemma_unsigned_evals(m, x, y, a, b);
    lemma_signed_evals(m, x, y, a, b);
    let pair = paired(m, hi, lo);
    lemma_pair_evals(m, hi as nat, lo as nat);
    let times = Box::new(lines::umull(x, y));
    let signed_times = Box::new(lines::smull(x, y));
    let (h, l) = (Expression::Register(hi as nat), Expression::Register(lo as nat));
    let both = Box::new(pair_expression(hi as nat, lo as nat));
    if kind == 2 {
        let (p, q) = (m.r[lo as int], m.r[hi as int]);
        let first = Expression::Two(Operator::Plus, times, Box::new(l));
        lemma_long_apply(a * b, word(p));
        lemma_long_apply(a * b + p, word(q));
        small_c::lemma_eval_register(lo as nat, m);
        small_c::lemma_eval_register(hi as nat, m);
        small_c::lemma_eval_two(Operator::Plus, times, Box::new(l), m);
        small_c::lemma_eval_two(Operator::Plus, Box::new(first), Box::new(h), m);
        assert(first.eval(m) == long(a * b + p));
        assert(lines::umaal(x, y, hi as nat, lo as nat) == Expression::Two(
            Operator::Plus,
            Box::new(first),
            Box::new(h),
        ));
    } else if kind == 5 {
        lemma_long_apply(a * b, long(pair));
        small_c::lemma_eval_two(Operator::Plus, times, both, m);
        assert(lines::umlal(x, y, hi as nat, lo as nat) == Expression::Two(
            Operator::Plus,
            times,
            both,
        ));
    } else if kind == 7 {
        let whole = signed(a) * signed(b);
        let part = whole % 0x1_0000_0000_0000_0000;
        lemma_long_apply(part, long(pair));
        small_c::lemma_eval_two(Operator::Plus, signed_times, both, m);
        lemma_long_wrapped(whole, pair);
        assert(lines::smlal(x, y, hi as nat, lo as nat) == Expression::Two(
            Operator::Plus,
            signed_times,
            both,
        ));
    }
}

proof fn lemma_long_wrapped(x: int, y: int)
    ensures
        (x % 0x1_0000_0000_0000_0000 + y) % 0x1_0000_0000_0000_0000 == (x + y)
            % 0x1_0000_0000_0000_0000,
{
    vstd::arithmetic::div_mod::lemma_add_mod_noop(x, y, 0x1_0000_0000_0000_0000);
    vstd::arithmetic::div_mod::lemma_add_mod_noop(
        x % 0x1_0000_0000_0000_0000,
        y,
        0x1_0000_0000_0000_0000,
    );
    vstd::arithmetic::div_mod::lemma_mod_twice(x, 0x1_0000_0000_0000_0000);
}

/// the machine with a long number in two registers, and its sign in the flags
/// where they are asked for.
pub open spec fn with_long(machine: Machine, hi: u32, lo: u32, number: int, signs: bool) -> Machine {
    let moved = machine.with_register(lo as int, (number % 0x1_0000_0000) as u32).with_register(
        hi as int,
        (number / 0x1_0000_0000) as u32,
    );
    if signs {
        moved.with_field(
            Field::N,
            if number >= 0x8000_0000_0000_0000 {
                1
            } else {
                0
            },
        ).with_field(
            Field::Z,
            if number == 0 {
                1
            } else {
                0
            },
        )
    } else {
        moved
    }
}

spec fn long_line(e: Expression, lo: nat, hi: nat, signs: bool) -> Program {
    if signs {
        lines::long_signs_line(e, lo, hi)
    } else {
        lines::long_line(e, lo, hi)
    }
}

proof fn lemma_long_equals(number: int)
    requires
        0 <= number < 0x1_0000_0000_0000_0000,
    ensures
        Operator::Equal.apply(long(number), small(0)).number == (if number == 0 {
            1int
        } else {
            0
        }),
{
    assert(Type::U64.with(Type::I32) == Type::U64);
    reveal(Operator::apply);
}

proof fn lemma_long_run(machine: Machine, e: Expression, lo: u32, hi: u32, number: int, signs: bool)
    requires
        e.eval(machine) == long(number),
        0 <= number < 0x1_0000_0000_0000_0000,
    ensures
        long_line(e, lo as nat, hi as nat, signs).run(machine).bare() == with_long(
            machine,
            hi,
            lo,
            number,
            signs,
        ).bare(),
{
    broadcast use group_steps;

    let m_0 = machine.with_local(Name::R, long(number));
    assert(Statement::Declare(Type::U64, Declared::One(Name::R, e)).run(machine) == m_0) by {
        broadcast use group_running;

    }
    let r = Expression::Local(Name::R);
    let m_1 = m_0.with_register(lo as int, (number % 0x1_0000_0000) as u32);
    assert(Statement::Assign(
        Place::Register(lo as nat),
        Expression::Cast(Type::U32, Box::new(r)),
    ).run(m_0) == m_1) by {
        broadcast use group_running;

    }
    lemma_long_high(number);
    let high = Expression::Two(Operator::Right, Box::new(r), Box::new(Expression::Int(32)));
    let m_2 = m_1.with_register(hi as int, (number / 0x1_0000_0000) as u32);
    assert(Statement::Assign(
        Place::Register(hi as nat),
        Expression::Cast(Type::U32, Box::new(Expression::Group(Box::new(high)))),
    ).run(m_1) == m_2) by {
        broadcast use group_running;

    }
    if signs {
        let top = Expression::Two(Operator::Right, Box::new(r), Box::new(Expression::Int(63)));
        let m_3 = m_2.with_field(
            Field::N,
            if number >= 0x8000_0000_0000_0000 {
                1
            } else {
                0
            },
        );
        assert(Statement::Assign(Place::Field(Field::N), top).run(m_2) == m_3) by {
            broadcast use group_running;

        }
        lemma_long_equals(number);
        let zero = Expression::Two(Operator::Equal, Box::new(r), Box::new(Expression::Int(0)));
        assert(Statement::Assign(Place::Field(Field::Z), zero).run(m_3) == m_3.with_field(
            Field::Z,
            if number == 0 {
                1
            } else {
                0
            },
        )) by {
            broadcast use group_running;

        }
    }
}

proof fn lemma_long_code(out: Seq<char>, scope: Names, address: u32, op: u32)
    requires
        condition(op) == 14,
        kind(op) == 0,
        (op >> 4) % 16 == 9,
        four(op, 21) == 2 || 4 <= four(op, 21) <= 7,
        four(op, 16) != 15,
        four(op, 12) != 15,
    ensures
        ({
            let pc = address.wrapping_add(8);
            let code = lower::lower_code(out, scope, address, op);
            code.on && code.text == text::emitted(
                out,
                "    { uint64_t r = {}; ctx->r[{}] = (uint32_t)r; ctx->r[{}] = (uint32_t)(r >> 32);{} }"@,
                seq![
                    lower::long_text(
                        four(op, 21),
                        scope.reg(op % 16, pc),
                        scope.reg(four(op, 8), pc),
                        four(op, 16),
                        four(op, 12),
                    ),
                    text::dec(four(op, 12) as nat),
                    text::dec(four(op, 16) as nat),
                    if four(op, 21) != 2 && flag(op, 20) {
                        " ctx->n = r >> 63; ctx->z = r == 0;"@
                    } else {
                        ""@
                    },
                ],
            )
        }),
{
    lemma_arm_fields(op);
    lemma_multiply_fields(op);
}

/// umaal, umull, umlal, smull and smlal leave a number of 64 bits in two
/// registers.
pub proof fn law_long_multiplies(
    out: Seq<char>,
    scope: Names,
    address: u32,
    op: u32,
    machine: Machine,
)
    requires
        condition(op) == 14,
        kind(op) == 0,
        (op >> 4) % 16 == 9,
        four(op, 21) == 2 || 4 <= four(op, 21) <= 7,
        four(op, 16) != 15,
        four(op, 12) != 15,
        sound(machine),
    ensures
        ({
            let code = lower::lower_code(out, scope, address, op);
            let module = scope.module is Some;
            let pc = address.wrapping_add(8);
            let number = long_product(
                machine,
                four(op, 21),
                read(machine, module, op % 16, pc),
                read(machine, module, four(op, 8), pc),
                four(op, 16),
                four(op, 12),
            );
            let signs = four(op, 21) != 2 && flag(op, 20);
            code.on && does(
                out,
                code.text,
                machine,
                with_long(machine, four(op, 16), four(op, 12), number, signs),
            )
        }),
{
    let module = scope.module is Some;
    let pc = address.wrapping_add(8);
    let (rm, rs, hi, lo) = (op % 16, four(op, 8), four(op, 16), four(op, 12));
    let kind = four(op, 21);
    let (a, b) = (read(machine, module, rm, pc), read(machine, module, rs, pc));
    let (x, y) = (source(scope, rm, pc), source(scope, rs, pc));
    let number = long_product(machine, kind, a, b, hi, lo);
    let signs = kind != 2 && flag(op, 20);
    lemma_source(scope, rm, pc, machine);
    lemma_source(scope, rs, pc, machine);
    lemma_long_code(out, scope, address, op);
    lemma_long_text(kind, x, y, hi, lo);
    lemma_long_evals(machine, kind, x, y, a, b, hi, lo);
    let e = long_expression(kind, x, y, hi as nat, lo as nat);
    lemma_long_run(machine, e, lo, hi, number, signs);
    lines::lemma_long_signs_line(e, lo as nat, hi as nat);
    lines::lemma_long_line(e, lo as nat, hi as nat);
    lemma_line_does(
        out,
        "    { uint64_t r = {}; ctx->r[{}] = (uint32_t)r; ctx->r[{}] = (uint32_t)(r >> 32);{} }"@,
        seq![
            e.text(),
            text::dec(lo as nat),
            text::dec(hi as nat),
            if signs {
                " ctx->n = r >> 63; ctx->z = r == 0;"@
            } else {
                ""@
            },
        ],
        long_line(e, lo as nat, hi as nat, signs),
        machine,
        with_long(machine, hi, lo, number, signs),
    );
}

/// clz leaves how many bits are zero above the highest that is set.
pub proof fn law_leading_zeros(
    out: Seq<char>,
    scope: Names,
    address: u32,
    op: u32,
    machine: Machine,
)
    requires
        condition(op) == 14,
        kind(op) == 0,
        (op >> 4) % 16 == 1,
        four(op, 21) == 11,
        !flag(op, 20),
        four(op, 12) != 15,
    ensures
        ({
            let code = lower::lower_code(out, scope, address, op);
            let value = read(machine, scope.module is Some, op % 16, address.wrapping_add(8));
            code.on && does(
                out,
                code.text,
                machine,
                machine.with_register(
                    four(op, 12) as int,
                    leading_zeros(value as nat) as u32,
                ),
            )
        }),
{
    lemma_arm_fields(op);
    lemma_multiply_fields(op);
    let rd = four(op, 12) as nat;
    let pc = address.wrapping_add(8);
    let value = read(machine, scope.module is Some, op % 16, pc);
    let x = source(scope, op % 16, pc);
    lemma_source(scope, op % 16, pc, machine);
    lines::lemma_clz_line(x, rd);
    lemma_few(value as nat);
    let m_0 = machine.with_local(Name::M, word(value));
    lemma_eval_call(Expression::Local(Name::M), m_0);
    assert(lines::clz_line(x, rd).run(machine) == m_0.with_register(
        rd as int,
        leading_zeros(value as nat) as u32,
    )) by {
        broadcast use group_running;

    }
    lemma_line_does(
        out,
        "    { uint32_t m = {}; ctx->r[{}] = m ? __builtin_clz(m) : 32; }"@,
        seq![x.text(), text::dec(rd)],
        lines::clz_line(x, rd),
        machine,
        machine.with_register(rd as int, leading_zeros(value as nat) as u32),
    );
}

/// there are 32 at most.
proof fn lemma_few(value: nat)
    requires
        value <= u32::MAX,
    ensures
        leading_zeros(value) <= 32,
{
    vstd::arithmetic::power2::lemma2_to64();
    lemma_few_left(value, 0);
}

proof fn lemma_few_left(value: nat, done: nat)
    requires
        done <= 31,
        value == 0 ==> done == 0,
        value > 0 ==> value >= vstd::arithmetic::power2::pow2(done),
    ensures
        leading_zeros(value) <= 32 - done,
    decreases 32 - done,
{
    vstd::arithmetic::power2::lemma2_to64();
    if 0 < value < 0x8000_0000 {
        if done < 31 {
            vstd::arithmetic::power2::lemma_pow2_unfold(done + 1);
            lemma_few_left(2 * value, done + 1);
        }
    }
}

} // verus!
