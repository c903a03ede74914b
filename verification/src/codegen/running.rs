//! what the statements do that the C for many instructions has.

use crate::codegen::architecture::{
    difference, sum, with_flags, with_sign,
};
use crate::codegen::small_c;
use crate::codegen::small_c::{
    group_running, group_steps, Declared, Expression, Field, Layout, Machine, Name, Operator, Place, Program, Statement, Type,
    Value,
};
use vstd::prelude::*;

verus! {

/// a number of 32 bits without a sign.
pub open spec fn word(number: u32) -> Value {
    Value { of: Type::U32, number: number as int }
}

/// a number that is written without a suffix.
pub open spec fn small(number: nat) -> Value {
    Value { of: Type::I32, number: number as int }
}

proof fn lemma_word_held(x: u32)
    ensures
        Type::U32.holds(x as int) == x,
        Type::U32.with(Type::U32) == Type::U32,
        Type::U32.with(Type::I32) == Type::U32,
        Type::U32.promoted() == Type::U32,
{
}

proof fn lemma_words_plus(x: u32, y: u32)
    ensures
        Operator::Plus.apply(word(x), word(y)) == word(((x + y) % 0x1_0000_0000) as u32),
{
    reveal(Operator::apply);
    lemma_word_held(x);
    lemma_word_held(y);
}

proof fn lemma_words_minus(x: u32, y: u32)
    ensures
        Operator::Minus.apply(word(x), word(y)) == word(((x - y) % 0x1_0000_0000) as u32),
{
    reveal(Operator::apply);
    lemma_word_held(x);
    lemma_word_held(y);
}

proof fn lemma_words_times(x: u32, y: u32)
    ensures
        Operator::Times.apply(word(x), word(y)) == word(((x * y) % 0x1_0000_0000) as u32),
{
    reveal(Operator::apply);
    lemma_word_held(x);
    lemma_word_held(y);
}

proof fn lemma_words_and(x: u32, y: u32)
    ensures
        Operator::And.apply(word(x), word(y)) == word(x & y),
{
    reveal(Operator::apply);
    lemma_word_held(x);
    lemma_word_held(y);
    lemma_word_held(x & y);
}

proof fn lemma_words_xor(x: u32, y: u32)
    ensures
        Operator::Xor.apply(word(x), word(y)) == word(x ^ y),
{
    reveal(Operator::apply);
    lemma_word_held(x);
    lemma_word_held(y);
    lemma_word_held(x ^ y);
}

proof fn lemma_words_or(x: u32, y: u32)
    ensures
        Operator::Or.apply(word(x), word(y)) == word(x | y),
{
    reveal(Operator::apply);
    lemma_word_held(x);
    lemma_word_held(y);
    lemma_word_held(x | y);
}

/// the operators on words.
pub proof fn lemma_words(x: u32, y: u32)
    ensures
        Operator::Plus.apply(word(x), word(y)) == word(((x + y) % 0x1_0000_0000) as u32),
        Operator::Minus.apply(word(x), word(y)) == word(((x - y) % 0x1_0000_0000) as u32),
        Operator::Times.apply(word(x), word(y)) == word(((x * y) % 0x1_0000_0000) as u32),
        Operator::And.apply(word(x), word(y)) == word(x & y),
        Operator::Xor.apply(word(x), word(y)) == word(x ^ y),
        Operator::Or.apply(word(x), word(y)) == word(x | y),
        Operator::Less.apply(word(x), word(y)).number == (if x < y {
            1int
        } else {
            0int
        }),
        Operator::AtLeast.apply(word(x), word(y)).number == (if x >= y {
            1int
        } else {
            0int
        }),
{
    lemma_words_plus(x, y);
    lemma_words_minus(x, y);
    lemma_words_times(x, y);
    lemma_words_and(x, y);
    lemma_words_xor(x, y);
    lemma_words_or(x, y);
    lemma_words_compared(x, y);
}

proof fn lemma_words_compared(x: u32, y: u32)
    ensures
        Operator::Less.apply(word(x), word(y)).number == (if x < y {
            1int
        } else {
            0int
        }),
        Operator::AtLeast.apply(word(x), word(y)).number == (if x >= y {
            1int
        } else {
            0int
        }),
{
    reveal(Operator::apply);
    lemma_word_held(x);
    lemma_word_held(y);
}

/// words shifted by a constant.
pub proof fn lemma_shifted_words(x: u32, amount: nat)
    requires
        amount < 32,
    ensures
        Operator::Left.apply(word(x), small(amount)) == word(x << (amount as u32)),
        Operator::Right.apply(word(x), small(amount)) == word(x >> (amount as u32)),
{
    lemma_shifted_left(x, amount);
    lemma_shifted_right(x, amount);
}

proof fn lemma_shifted_left(x: u32, amount: nat)
    requires
        amount < 32,
    ensures
        Operator::Left.apply(word(x), small(amount)) == word(x << (amount as u32)),
{
    assert(Operator::Left.apply(word(x), small(amount)) == small_c::shifted_left(
        word(x),
        amount as int,
    )) by {
        reveal(Operator::apply);
    }
    reveal(small_c::shifted_left);
    lemma_word_held(x);
    lemma_word_held(x << (amount as u32));
}

proof fn lemma_shifted_right(x: u32, amount: nat)
    requires
        amount < 32,
    ensures
        Operator::Right.apply(word(x), small(amount)) == word(x >> (amount as u32)),
{
    assert(Operator::Right.apply(word(x), small(amount)) == small_c::shifted_right(
        word(x),
        amount as int,
    )) by {
        reveal(Operator::apply);
    }
    reveal(small_c::shifted_right);
    lemma_word_held(x);
    lemma_word_held(x >> (amount as u32));
}

/// a word as another type has it.
pub proof fn lemma_word_equals(x: u32, number: nat)
    requires
        number <= 0x7FFF_FFFF,
    ensures
        Operator::Equal.apply(word(x), small(number)).number == (
        if x == number {
            1int
        } else {
            0int
        }),
{
    reveal(Operator::apply);
}

proof fn lemma_sign_bit(r: u32)
    by (bit_vector)
    ensures
        r >> 31 == (if r >= 0x8000_0000 {
            1u32
        } else {
            0u32
        }),
{
}

pub proof fn lemma_sum_bits(a: u32, b: u32, c: u32, r: u32)
    by (bit_vector)
    requires
        c <= 1,
        r == (a + b + c) % 0x1_0000_0000,
    ensures
        c == 0 ==> (r < a) == (a + b >= 0x1_0000_0000),
        (((a ^ r) & (b ^ r)) >> 31 == 0) == (((if a >= 0x8000_0000 {
            a - 0x1_0000_0000
        } else {
            a + 0
        }) + (if b >= 0x8000_0000 {
            b - 0x1_0000_0000
        } else {
            b + 0
        }) + c) == (if r >= 0x8000_0000 {
            r - 0x1_0000_0000
        } else {
            r + 0
        })),
        ((a ^ r) & (b ^ r)) >> 31 <= 1,
{
}

pub proof fn lemma_difference_bits(a: u32, b: u32, c: u32, r: u32)
    by (bit_vector)
    requires
        c <= 1,
        r == (a + (0xFFFF_FFFF - b) + c) % 0x1_0000_0000,
    ensures
        c == 1 ==> (a >= b) == (a + (0xFFFF_FFFF - b) + 1 >= 0x1_0000_0000),
        (((a ^ b) & (a ^ r)) >> 31 == 0) == (((if a >= 0x8000_0000 {
            a - 0x1_0000_0000
        } else {
            a + 0
        }) + (if b < 0x8000_0000 {
            0xFFFF_FFFF - b - 0x1_0000_0000
        } else {
            0xFFFF_FFFF - b
        }) + c) == (if r >= 0x8000_0000 {
            r - 0x1_0000_0000
        } else {
            r + 0
        })),
        ((a ^ b) & (a ^ r)) >> 31 <= 1,
{
}

/// the statements for the negative and zero flags.
pub proof fn lemma_set_sign(m: Machine, r: u32)
    requires
        m.locals[Name::R] == word(r),
    ensures
        Statement::Assign(Place::Field(Field::Z), Expression::Two(Operator::Equal, Box::new(Expression::Local(Name::R)), Box::new(Expression::Int(0)))).run(Statement::Assign(Place::Field(Field::N), Expression::Two(Operator::Right, Box::new(Expression::Local(Name::R)), Box::new(Expression::Int(31)))).run(m)) == with_sign(m, r),
{
    lemma_sign_bit(r);
    lemma_shifted_words(r, 31);
    lemma_word_equals(r, 0);
    broadcast use group_running;

}

/// the statements for the carry and overflow flags of a sum.
pub proof fn lemma_set_sum_flags(m: Machine, a: u32, b: u32)
    requires
        m.locals[Name::A] == word(a),
        m.locals[Name::B] == word(b),
        m.locals[Name::R] == word(sum(a, b).result),
    ensures
        Statement::Assign(Place::Field(Field::V), Expression::Two(Operator::Right, Box::new(Expression::Group(Box::new(Expression::Two(Operator::And, Box::new(Expression::Group(Box::new(Expression::Two(Operator::Xor, Box::new(Expression::Local(Name::A)), Box::new(Expression::Local(Name::R)))))), Box::new(Expression::Group(Box::new(Expression::Two(Operator::Xor, Box::new(Expression::Local(Name::B)), Box::new(Expression::Local(Name::R)))))))))), Box::new(Expression::Int(31)))).run(Statement::Assign(Place::Field(Field::C), Expression::Two(Operator::Less, Box::new(Expression::Local(Name::R)), Box::new(Expression::Local(Name::A)))).run(m)) == m.with_field(Field::C, sum(a, b).carry).with_field(
            Field::V,
            sum(a, b).overflow,
        ),
{
    let r = sum(a, b).result;
    lemma_sum_bits(a, b, 0, r);
    lemma_set_overflow(m.with_field(Field::C, sum(a, b).carry), a, b, r);
    lemma_words(r, a);
    broadcast use group_running;

}

/// the statement for the overflow flag of a sum.
pub proof fn lemma_set_overflow(m: Machine, a: u32, b: u32, r: u32)
    requires
        m.locals[Name::A] == word(a),
        m.locals[Name::B] == word(b),
        m.locals[Name::R] == word(r),
        ((a ^ r) & (b ^ r)) >> 31 <= 1,
    ensures
        Statement::Assign(Place::Field(Field::V), Expression::Two(Operator::Right, Box::new(Expression::Group(Box::new(Expression::Two(Operator::And, Box::new(Expression::Group(Box::new(Expression::Two(Operator::Xor, Box::new(Expression::Local(Name::A)), Box::new(Expression::Local(Name::R)))))), Box::new(Expression::Group(Box::new(Expression::Two(Operator::Xor, Box::new(Expression::Local(Name::B)), Box::new(Expression::Local(Name::R)))))))))), Box::new(Expression::Int(31)))).run(m) == m.with_field(Field::V, (((a ^ r) & (b ^ r)) >> 31) as int),
{
    lemma_words(a, r);
    lemma_words(b, r);
    lemma_words(a ^ r, b ^ r);
    lemma_shifted_words((a ^ r) & (b ^ r), 31);
    broadcast use group_running;

}

/// the statement for the overflow flag of a difference.
pub proof fn lemma_set_underflow(m: Machine, a: u32, b: u32, r: u32)
    requires
        m.locals[Name::A] == word(a),
        m.locals[Name::B] == word(b),
        m.locals[Name::R] == word(r),
        ((a ^ b) & (a ^ r)) >> 31 <= 1,
    ensures
        Statement::Assign(Place::Field(Field::V), Expression::Two(Operator::Right, Box::new(Expression::Group(Box::new(Expression::Two(Operator::And, Box::new(Expression::Group(Box::new(Expression::Two(Operator::Xor, Box::new(Expression::Local(Name::A)), Box::new(Expression::Local(Name::B)))))), Box::new(Expression::Group(Box::new(Expression::Two(Operator::Xor, Box::new(Expression::Local(Name::A)), Box::new(Expression::Local(Name::R)))))))))), Box::new(Expression::Int(31)))).run(m) == m.with_field(Field::V, (((a ^ b) & (a ^ r)) >> 31) as int),
{
    lemma_words(a, b);
    lemma_words(a, r);
    lemma_words(a ^ b, a ^ r);
    lemma_shifted_words((a ^ b) & (a ^ r), 31);
    broadcast use group_running;

}

/// the statements for the carry and overflow flags of a difference.
pub proof fn lemma_set_difference_flags(m: Machine, a: u32, b: u32)
    requires
        m.locals[Name::A] == word(a),
        m.locals[Name::B] == word(b),
        m.locals[Name::R] == word(difference(a, b).result),
    ensures
        Statement::Assign(Place::Field(Field::V), Expression::Two(Operator::Right, Box::new(Expression::Group(Box::new(Expression::Two(Operator::And, Box::new(Expression::Group(Box::new(Expression::Two(Operator::Xor, Box::new(Expression::Local(Name::A)), Box::new(Expression::Local(Name::B)))))), Box::new(Expression::Group(Box::new(Expression::Two(Operator::Xor, Box::new(Expression::Local(Name::A)), Box::new(Expression::Local(Name::R)))))))))), Box::new(Expression::Int(31)))).run(Statement::Assign(Place::Field(Field::C), Expression::Two(Operator::AtLeast, Box::new(Expression::Local(Name::A)), Box::new(Expression::Local(Name::B)))).run(m)) == m.with_field(Field::C, difference(a, b).carry).with_field(
            Field::V,
            difference(a, b).overflow,
        ),
{
    let r = difference(a, b).result;
    lemma_difference_bits(a, b, 1, r);
    lemma_set_underflow(m.with_field(Field::C, difference(a, b).carry), a, b, r);
    lemma_words(a, b);
    broadcast use group_running;

}

/// a and b declared, and their sum or difference as r.
pub proof fn lemma_declare_three(
    m: Machine,
    first: Expression,
    second: Expression,
    minus: bool,
    x: u32,
    y: u32,
)
    requires
        first.eval(m).number == x,
        second.eval(m.with_local(Name::A, word(x))).number == y,
    ensures
        ({
            let operator = if minus {
                Operator::Minus
            } else {
                Operator::Plus
            };
            let r = if minus {
                difference(x, y).result
            } else {
                sum(x, y).result
            };
            Statement::Declare(
                Type::U32,
                Declared::More(
                    Name::A,
                    first,
                    Box::new(
                        Declared::More(
                            Name::B,
                            second,
                            Box::new(
                                Declared::One(
                                    Name::R,
                                    Expression::Two(
                                        operator,
                                        Box::new(Expression::Local(Name::A)),
                                        Box::new(Expression::Local(Name::B)),
                                    ),
                                ),
                            ),
                        ),
                    ),
                ),
            ).run(m) == m.with_local(Name::A, word(x)).with_local(Name::B, word(y)).with_local(
                Name::R,
                word(r),
            )
        }),
{
    lemma_words(x, y);
    broadcast use group_running;

    let m2 = m.with_local(Name::A, word(x)).with_local(Name::B, word(y));
    let operator = if minus {
        Operator::Minus
    } else {
        Operator::Plus
    };
    let expression = Expression::Two(
        operator,
        Box::new(Expression::Local(Name::A)),
        Box::new(Expression::Local(Name::B)),
    );
    assert(minus ==> (x + (0xFFFF_FFFF - y) + 1) % 0x1_0000_0000 == (x - y) % 0x1_0000_0000);
}

/// r goes into a register.
pub proof fn lemma_set_register(m: Machine, number: nat, name: Name, r: u32)
    requires
        m.locals[name] == word(r),
    ensures
        Statement::Assign(Place::Register(number), Expression::Local(name)).run(m)
            == m.with_register(number as int, r),
{
    broadcast use group_running;

}

/// the expressions that most C starts from.
pub proof fn lemma_leaves(m: Machine)
    ensures
        forall|number: nat| #[trigger]
            Expression::Register(number).eval(m) == word(m.r[number as int]),
        forall|number: nat| #[trigger]
            Expression::Unsigned(number).eval(m) == (Value { of: Type::U32, number: number as int }),
        forall|number: nat| #[trigger]
            Expression::Int(number).eval(m) == small(number),
        forall|name: Name| #[trigger] Expression::Local(name).eval(m) == m.locals[name],
        forall|number: nat, width: nat|
            #[trigger] (Expression::Hex { number, width, unsigned: true }).eval(m) == (Value {
                of: Type::U32,
                number: number as int,
            }),
{
    broadcast use group_running;

}

/// braces do nothing.
pub proof fn lemma_braces(m: Machine)
    ensures
        Statement::Open.run(m) == m,
        Statement::Close.run(m) == m,
        forall|name: Name| #[trigger] Statement::Ignore(name).run(m) == m,
{
    broadcast use group_running;

}

/// the C that adds or subtracts two numbers into a register, with the flags.
pub open spec fn arithmetic(first: Expression, second: Expression, minus: bool, rd: nat) -> Program {
    if minus {
        Program::Then(
            Layout::First,
            Statement::Open,
            Box::new(Program::Then(
            Layout::Middle,
            Statement::Declare(Type::U32, Declared::More(Name::A, first, Box::new(Declared::More(Name::B, second, Box::new(Declared::One(Name::R, Expression::Two(Operator::Minus, Box::new(Expression::Local(Name::A)), Box::new(Expression::Local(Name::B))))))))),
            Box::new(Program::Then(
            Layout::Middle,
            Statement::Assign(Place::Register(rd), Expression::Local(Name::R)),
            Box::new(Program::Then(
            Layout::Middle,
            Statement::Assign(Place::Field(Field::N), Expression::Two(Operator::Right, Box::new(Expression::Local(Name::R)), Box::new(Expression::Int(31)))),
            Box::new(Program::Then(
            Layout::Middle,
            Statement::Assign(Place::Field(Field::Z), Expression::Two(Operator::Equal, Box::new(Expression::Local(Name::R)), Box::new(Expression::Int(0)))),
            Box::new(Program::Then(
            Layout::Middle,
            Statement::Assign(Place::Field(Field::C), Expression::Two(Operator::AtLeast, Box::new(Expression::Local(Name::A)), Box::new(Expression::Local(Name::B)))),
            Box::new(Program::Then(
            Layout::Middle,
            Statement::Assign(Place::Field(Field::V), Expression::Two(Operator::Right, Box::new(Expression::Group(Box::new(Expression::Two(Operator::And, Box::new(Expression::Group(Box::new(Expression::Two(Operator::Xor, Box::new(Expression::Local(Name::A)), Box::new(Expression::Local(Name::B)))))), Box::new(Expression::Group(Box::new(Expression::Two(Operator::Xor, Box::new(Expression::Local(Name::A)), Box::new(Expression::Local(Name::R)))))))))), Box::new(Expression::Int(31)))),
            Box::new(Program::Then(
            Layout::Last,
            Statement::Close,
            Box::new(Program::End),
        )),
        )),
        )),
        )),
        )),
        )),
        )),
        )
    } else {
        Program::Then(
            Layout::First,
            Statement::Open,
            Box::new(Program::Then(
            Layout::Middle,
            Statement::Declare(Type::U32, Declared::More(Name::A, first, Box::new(Declared::More(Name::B, second, Box::new(Declared::One(Name::R, Expression::Two(Operator::Plus, Box::new(Expression::Local(Name::A)), Box::new(Expression::Local(Name::B))))))))),
            Box::new(Program::Then(
            Layout::Middle,
            Statement::Assign(Place::Register(rd), Expression::Local(Name::R)),
            Box::new(Program::Then(
            Layout::Middle,
            Statement::Assign(Place::Field(Field::N), Expression::Two(Operator::Right, Box::new(Expression::Local(Name::R)), Box::new(Expression::Int(31)))),
            Box::new(Program::Then(
            Layout::Middle,
            Statement::Assign(Place::Field(Field::Z), Expression::Two(Operator::Equal, Box::new(Expression::Local(Name::R)), Box::new(Expression::Int(0)))),
            Box::new(Program::Then(
            Layout::Middle,
            Statement::Assign(Place::Field(Field::C), Expression::Two(Operator::Less, Box::new(Expression::Local(Name::R)), Box::new(Expression::Local(Name::A)))),
            Box::new(Program::Then(
            Layout::Middle,
            Statement::Assign(Place::Field(Field::V), Expression::Two(Operator::Right, Box::new(Expression::Group(Box::new(Expression::Two(Operator::And, Box::new(Expression::Group(Box::new(Expression::Two(Operator::Xor, Box::new(Expression::Local(Name::A)), Box::new(Expression::Local(Name::R)))))), Box::new(Expression::Group(Box::new(Expression::Two(Operator::Xor, Box::new(Expression::Local(Name::B)), Box::new(Expression::Local(Name::R)))))))))), Box::new(Expression::Int(31)))),
            Box::new(Program::Then(
            Layout::Last,
            Statement::Close,
            Box::new(Program::End),
        )),
        )),
        )),
        )),
        )),
        )),
        )),
        )
    }
}

/// the C that compares two numbers.
pub open spec fn comparison(first: Expression, second: Expression) -> Program {
    Program::Then(
            Layout::First,
            Statement::Open,
            Box::new(Program::Then(
            Layout::Middle,
            Statement::Declare(Type::U32, Declared::More(Name::A, first, Box::new(Declared::More(Name::B, second, Box::new(Declared::One(Name::R, Expression::Two(Operator::Minus, Box::new(Expression::Local(Name::A)), Box::new(Expression::Local(Name::B))))))))),
            Box::new(Program::Then(
            Layout::Middle,
            Statement::Assign(Place::Field(Field::N), Expression::Two(Operator::Right, Box::new(Expression::Local(Name::R)), Box::new(Expression::Int(31)))),
            Box::new(Program::Then(
            Layout::Middle,
            Statement::Assign(Place::Field(Field::Z), Expression::Two(Operator::Equal, Box::new(Expression::Local(Name::R)), Box::new(Expression::Int(0)))),
            Box::new(Program::Then(
            Layout::Middle,
            Statement::Assign(Place::Field(Field::C), Expression::Two(Operator::AtLeast, Box::new(Expression::Local(Name::A)), Box::new(Expression::Local(Name::B)))),
            Box::new(Program::Then(
            Layout::Middle,
            Statement::Assign(Place::Field(Field::V), Expression::Two(Operator::Right, Box::new(Expression::Group(Box::new(Expression::Two(Operator::And, Box::new(Expression::Group(Box::new(Expression::Two(Operator::Xor, Box::new(Expression::Local(Name::A)), Box::new(Expression::Local(Name::B)))))), Box::new(Expression::Group(Box::new(Expression::Two(Operator::Xor, Box::new(Expression::Local(Name::A)), Box::new(Expression::Local(Name::R)))))))))), Box::new(Expression::Int(31)))),
            Box::new(Program::Then(
            Layout::Last,
            Statement::Close,
            Box::new(Program::End),
        )),
        )),
        )),
        )),
        )),
        )),
        )
}

/// a sum or a difference goes into its register, and the flags are its own.
pub proof fn lemma_arithmetic(
    m: Machine,
    first: Expression,
    second: Expression,
    minus: bool,
    rd: nat,
    x: u32,
    y: u32,
)
    requires
        first.eval(m).number == x,
        second.eval(m.with_local(Name::A, word(x))).number == y,
    ensures
        ({
            let total = if minus {
                difference(x, y)
            } else {
                sum(x, y)
            };
            arithmetic(first, second, minus, rd).run(m).bare() == with_flags(
                m.with_register(rd as int, total.result),
                total,
            ).bare()
        }),
{
    broadcast use group_steps;

    let total = if minus {
        difference(x, y)
    } else {
        sum(x, y)
    };
    lemma_declare_three(m, first, second, minus, x, y);
    let declared = m.with_local(Name::A, word(x)).with_local(Name::B, word(y)).with_local(
        Name::R,
        word(total.result),
    );
    lemma_set_register(declared, rd, Name::R, total.result);
    let stored = declared.with_register(rd as int, total.result);
    lemma_set_sign(stored, total.result);
    if minus {
        lemma_set_difference_flags(with_sign(stored, total.result), x, y);
    } else {
        lemma_set_sum_flags(with_sign(stored, total.result), x, y);
    }
}

/// a comparison sets the flags of the difference.
pub proof fn lemma_comparison(
    m: Machine,
    first: Expression,
    second: Expression,
    x: u32,
    y: u32,
)
    requires
        first.eval(m).number == x,
        second.eval(m.with_local(Name::A, word(x))).number == y,
    ensures
        comparison(first, second).run(m).bare() == with_flags(m, difference(x, y)).bare(),
{
    broadcast use group_steps;

    let total = difference(x, y);
    lemma_declare_three(m, first, second, true, x, y);
    let declared = m.with_local(Name::A, word(x)).with_local(Name::B, word(y)).with_local(
        Name::R,
        word(total.result),
    );
    lemma_set_sign(declared, total.result);
    lemma_set_difference_flags(with_sign(declared, total.result), x, y);
}

} // verus!
