//! what the expressions of the C for ARM instructions come to.

use crate::codegen::architecture::{inverted, read};
use crate::codegen::lines;
use crate::codegen::running::{lemma_words, small, word};
use crate::codegen::small_c;
use crate::codegen::small_c::{group_running, Expression, Machine, Operator, Type, Value};
use crate::codegen::Names;
use vstd::prelude::*;

verus! {

/// an address as an expression.
pub open spec fn place(scope: Names, address: u32) -> Expression {
    if scope.module is Some {
        lines::module_address(address as nat)
    } else {
        lines::plain_address(address as nat)
    }
}

/// a register as an expression, where r15 is the address the pipeline gives it.
pub open spec fn source(scope: Names, register: u32, pc: u32) -> Expression {
    if register == 15 {
        place(scope, pc)
    } else {
        lines::register_expression(register as nat)
    }
}

/// an address is written as it is, and counts from where the module is loaded.
pub proof fn lemma_place(scope: Names, address: u32, m: Machine)
    ensures
        place(scope, address).text() == scope.at(address),
        place(scope, address).grouped(),
        place(scope, address).strength() == 16,
        place(scope, address).eval(m) == word(
            ((address + if scope.module is Some {
                m.module as int
            } else {
                0
            }) % 0x1_0000_0000) as u32,
        ),
{
    broadcast use group_running;

    lines::lemma_module_address(address as nat);
    lines::lemma_plain_address(address as nat);
    lemma_words(m.module, address);
    assert(Expression::Module.eval(m) == word(m.module)) by {
        reveal_with_fuel(Expression::eval, 2);
    }
}

/// a register is written by its number, and reads as what is in it.
pub proof fn lemma_source(scope: Names, register: u32, pc: u32, m: Machine)
    requires
        register <= 15,
    ensures
        source(scope, register, pc).text() == scope.reg(register, pc),
        source(scope, register, pc).grouped(),
        source(scope, register, pc).strength() == 16,
        source(scope, register, pc).eval(m) == word(read(m, scope.module is Some, register, pc)),
{
    broadcast use group_running;

    lemma_place(scope, pc, m);
    lines::lemma_register_expression(register as nat);
}

/// a bit or the answer to a question.
pub open spec fn is_bit(value: Value) -> bool {
    (value.of is U8 || value.of is I32) && 0 <= value.number <= 1
}

/// words with a bit added or taken away.
pub proof fn lemma_word_and_bit(x: u32, bit: Value)
    requires
        is_bit(bit),
    ensures
        Operator::Plus.apply(word(x), bit) == word(((x + bit.number) % 0x1_0000_0000) as u32),
        Operator::Minus.apply(word(x), bit) == word(((x - bit.number) % 0x1_0000_0000) as u32),
{
    reveal(Operator::apply);
}

/// a number of 64 bits without a sign.
pub open spec fn long(number: int) -> Value {
    Value { of: Type::U64, number }
}

pub proof fn lemma_long_plus(x: int, other: Value)
    requires
        0 <= x,
        0 <= other.number,
        x + other.number < 0x1_0000_0000_0000_0000,
        is_bit(other) || other.of is U32 || other.of is U64,
    ensures
        Operator::Plus.apply(long(x), other) == long(x + other.number),
{
    assert(Type::U64.with(other.of) == Type::U64);
    lemma_long_held(x);
    lemma_long_held(other.number);
    lemma_long_held(x + other.number);
    assert(Operator::Plus.apply(long(x), other) == small_c::value(
        Type::U64,
        Type::U64.holds(x) + Type::U64.holds(other.number),
    )) by {
        reveal(Operator::apply);
    }
}

proof fn lemma_long_held(x: int)
    requires
        0 <= x < 0x1_0000_0000_0000_0000,
    ensures
        Type::U64.holds(x) == x,
{
}

pub proof fn lemma_long_compared(x: int, y: int)
    requires
        0 <= x < 0x1_0000_0000_0000_0000,
        0 <= y < 0x1_0000_0000_0000_0000,
    ensures
        Operator::AtLeast.apply(long(x), long(y)).number == (if x >= y {
            1int
        } else {
            0int
        }),
{
    reveal(Operator::apply);
}

proof fn lemma_long_bits(x: u64)
    by (bit_vector)
    ensures
        x >> 32 == x / 0x1_0000_0000,
        x >> 63 == x / 0x8000_0000_0000_0000,
{
}

pub proof fn lemma_long_high(x: int)
    requires
        0 <= x < 0x1_0000_0000_0000_0000,
    ensures
        Operator::Right.apply(long(x), small(32)).number == x / 0x1_0000_0000,
        Operator::Right.apply(long(x), small(32)).of is U64,
        Operator::Right.apply(long(x), small(63)).number == x / 0x8000_0000_0000_0000,
{
    lemma_long_bits(x as u64);
    assert(Operator::Right.apply(long(x), small(32)) == small_c::shifted_right(long(x), 32)) by {
        reveal(Operator::apply);
    }
    assert(Operator::Right.apply(long(x), small(63)) == small_c::shifted_right(long(x), 63)) by {
        reveal(Operator::apply);
    }
    reveal(small_c::shifted_right);
}

proof fn lemma_inverted_bits(x: u32, y: u32)
    by (bit_vector)
    ensures
        0xFFFF_FFFF - x == !x,
        x & 0xFFFF_FFFC == x - x % 4,
        x & 1 == x % 2,
{
}

/// a word turned around.
pub proof fn lemma_word_flipped(x: Expression, m: Machine, number: u32)
    requires
        x.eval(m) == word(number),
    ensures
        Expression::Flip(Box::new(x)).eval(m) == word(inverted(number)),
{
    broadcast use group_running;

}

/// the low bits that say how code is aligned taken away.
pub proof fn lemma_word_aligned(x: u32)
    ensures
        Operator::And.apply(word(x), word(0xFFFF_FFFC)) == word((x - x % 4) as u32),
{
    lemma_words(x, 0xFFFF_FFFC);
    lemma_inverted_bits(x, x);
}

/// the lowest bit of a word.
pub proof fn lemma_word_lowest(x: u32)
    ensures
        Operator::And.apply(word(x), small(1)) == word(x % 2),
{
    lemma_inverted_bits(x, x);
    lemma_words(x, 1);
    reveal(Operator::apply);
}

proof fn lemma_signed_bits(x: u32, amount: u32)
    by (bit_vector)
    requires
        amount < 32,
    ensures
        ((x as i32) >> amount) as u32 as int == (((x as i32) >> amount) + if ((x as i32) >> amount) < 0 {
            0x1_0000_0000i64
        } else {
            0i64
        }),
        (x as i32) + (if x >= 0x8000_0000 {
            0x1_0000_0000i64
        } else {
            0i64
        }) == x,
        amount == 31 ==> ((x as i32) >> amount) as u32 == (if x >= 0x8000_0000 {
            0xFFFF_FFFFu32
        } else {
            0u32
        }),
        x >> 31 == x / 0x8000_0000,
{
}

/// a word shifted right with its sign.
pub proof fn lemma_word_signed(x: u32, amount: nat)
    requires
        amount < 32,
    ensures
        small_c::value(
            Type::U32,
            Operator::Right.apply(small_c::value(Type::I32, x as int), small(amount)).number,
        ) == word(((x as i32) >> (amount as u32)) as u32),
        amount == 31 ==> ((x as i32) >> (amount as u32)) as u32 == (if x >= 0x8000_0000 {
            0xFFFF_FFFFu32
        } else {
            0u32
        }),
{
    lemma_signed_bits(x, amount as u32);
    let v = small_c::value(Type::I32, x as int);
    assert(v.number == x as i32);
    assert(Operator::Right.apply(v, small(amount)) == small_c::shifted_right(v, amount as int))
        by {
        reveal(Operator::apply);
    }
    reveal(small_c::shifted_right);
}

} // verus!
