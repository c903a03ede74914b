//! what the C for Thumb branches does, and that of branches through registers.

use crate::arm;
use crate::codegen;
use crate::codegen::architecture::{read, sound};
use crate::codegen::arm as arm_lower;
use crate::codegen::arm_meaning::lemma_wrapped_twice;
use crate::codegen::branch_lines as lines;
use crate::codegen::branches::{
    called, jumped, law_calls, law_interpreted, law_jumps, lemma_key_bits, lemma_svc, placed,
};
use crate::codegen::conditional::{
    lemma_branches_append, lemma_line_appends, lemma_test_lines, line,
};
use crate::codegen::conditions::{law_conditions, passes, Test};
use crate::codegen::operands::{
    lemma_place, lemma_source, lemma_word_aligned, lemma_word_lowest, place, source,
};
use crate::codegen::running::{lemma_words, small, word};
use crate::codegen::small_c;
use crate::codegen::small_c::{
    does, group_running, group_steps, lemma_grown_does, lemma_grown_none, lemma_line_grown, Event,
    Exit, Expression, Field, Machine, Name, Operator, Program, Routine, Type,
};
use crate::codegen::thumb as lower;
use crate::codegen::thumb_meaning::lemma_fields;
use crate::codegen::thumb_moves::{lemma_exchanges, lemma_low_bits};
use crate::codegen::Names;
use crate::text;
use crate::thumb::laws::{lemma_word_start, signed};
use vstd::prelude::*;

verus! {

/// code runs in Thumb or in ARM state.
pub open spec fn in_state(machine: Machine, thumb: bool) -> bool {
    &&& sound(machine)
    &&& machine.fields.contains_key(Field::Thumb)
    &&& machine.field(Field::Thumb) == if thumb {
        1int
    } else {
        0
    }
}

/// b goes as many halfwords past the instruction after the next as its low
/// eleven bits say.
pub proof fn law_thumb_branches(
    out: Seq<char>,
    scope: Names,
    address: u32,
    op: u32,
    second: u32,
    machine: Machine,
)
    requires
        0xE000 <= op < 0xE800,
    ensures
        ({
            let code = lower::lower_code(out, scope, address, op, second);
            let target = ((address + 4 + 2 * signed((op % 0x800) as int, 0x800)) % 0x1_0000_0000)
                as u32;
            !code.on && does(out, code.text, machine, jumped(machine, scope, target, true))
        }),
{
    let target = ((address + 4 + 2 * signed((op % 0x800) as int, 0x800)) % 0x1_0000_0000) as u32;
    lemma_branch_text(out, scope, address, op, second);
    law_jumps(out, scope, target, true, machine);
}

/// an offset counts from two instructions ahead.
proof fn lemma_ahead(address: u32, offset: int)
    ensures
        arm::displaced(address.wrapping_add(4), offset) == (address + 4 + offset) % 0x1_0000_0000,
{
    lemma_wrapped_twice(address + 4, offset);
}

proof fn lemma_branch_text(out: Seq<char>, scope: Names, address: u32, op: u32, second: u32)
    requires
        0xE000 <= op < 0xE800,
    ensures
        ({
            let target = ((address + 4 + 2 * signed((op % 0x800) as int, 0x800)) % 0x1_0000_0000)
                as u32;
            lower::lower_code(out, scope, address, op, second) == codegen::jump_code(
                out,
                scope,
                target,
                true,
            )
        }),
{
    lemma_fields(op);
    lemma_ahead(address, 2 * signed((op % 0x800) as int, 0x800));
}

/// where a pair of halfwords goes.
#[verifier::opaque]
pub open spec fn pair_place(address: u32, op: u32, second: u32) -> u32 {
    ((address + 4 + 0x1000 * signed((op % 0x800) as int, 0x800) + 2 * (second % 0x800))
        % 0x1_0000_0000) as u32
}

/// bl and blx take two halfwords, the first with the high part of how many
/// halfwords past them they go and the second with the low part. blx goes to ARM
/// code, which is on a word. a half on its own is left to the interpreter.
pub proof fn law_thumb_calls(
    out: Seq<char>,
    scope: Names,
    address: u32,
    op: u32,
    second: u32,
    machine: Machine,
)
    requires
        0xE800 <= op <= 0xFFFF,
        second <= 0xFFFF,
        address % 2 == 0,
        in_state(machine, true),
    ensures
        ({
            let code = lower::lower_code(out, scope, address, op, second);
            let target = pair_place(address, op, second);
            let next = address.wrapping_add(4);
            code.on && does(
                out,
                code.text,
                machine,
                if op / 0x800 == 0x1E && second / 0x800 == 0x1F {
                    called(machine, scope, next, true, target, true)
                } else if op / 0x800 == 0x1E && second / 0x800 == 0x1D {
                    called(machine, scope, next, true, (target - target % 4) as u32, false)
                } else {
                    machine.seeing(
                        Event::Interprets {
                            address: placed(machine, scope, address) as int,
                            code: op as int,
                        },
                    )
                },
            )
        }),
{
    lemma_pair(address, op, second);
    lemma_call_text(out, scope, address, op, second);
    let target = pair_place(address, op, second);
    let next = address.wrapping_add(4);
    lemma_even_next(address);
    if op / 0x800 == 0x1E && second / 0x800 == 0x1F {
        law_calls(out, scope, next, true, target, true, machine);
    } else if op / 0x800 == 0x1E && second / 0x800 == 0x1D {
        law_calls(out, scope, next, true, (target - target % 4) as u32, false, machine);
    } else {
        law_interpreted(out, scope, address, op, machine);
    }
}

proof fn lemma_even_next(address: u32)
    requires
        address % 2 == 0,
    ensures
        address.wrapping_add(4) % 2 == 0,
{
}

proof fn lemma_call_text(out: Seq<char>, scope: Names, address: u32, op: u32, second: u32)
    requires
        0xE800 <= op <= 0xFFFF,
        second <= 0xFFFF,
    ensures
        ({
            let code = lower::lower_code(out, scope, address, op, second);
            let target = lower::pair_target(address, op, second);
            let link = address.wrapping_add(4) | 1;
            code == if op / 0x800 == 0x1E && second / 0x800 == 0x1F {
                codegen::call_code(out, scope, link, target, true)
            } else if op / 0x800 == 0x1E && second / 0x800 == 0x1D {
                codegen::call_code(out, scope, link, (target - target % 4) as u32, false)
            } else {
                lower::interpret_code(out, scope, address, op)
            }
        }),
{
    lemma_fields(op);
    lemma_fields(second);
    lemma_word_start(lower::pair_target(address, op, second));
}

proof fn lemma_pair(address: u32, op: u32, second: u32)
    requires
        op <= 0xFFFF,
        second <= 0xFFFF,
    ensures
        lower::pair_target(address, op, second) == pair_place(address, op, second),
{
    reveal(pair_place);
    lemma_fields(op);
    lemma_fields(second);
    lemma_ahead(address, 0x1000 * signed((op % 0x800) as int, 0x800) + 2 * (second % 0x800));
}

/// C between the test of a condition and a closing brace.
pub open spec fn inside(out: Seq<char>, test: Test, inner: Seq<char>) -> Seq<char> {
    out + ("    if ("@ + test.text() + ") {\n"@) + inner + "    }\n"@
}

/// conditional branches go as many halfwords past the instruction after the next
/// as their low byte says, where their condition holds. the last two conditions
/// are left to the interpreter and svc.
pub proof fn law_thumb_conditional_branches(
    out: Seq<char>,
    scope: Names,
    address: u32,
    op: u32,
    second: u32,
    machine: Machine,
)
    requires
        0xD000 <= op < 0xE000,
    ensures
        ({
            let code = lower::lower_code(out, scope, address, op, second);
            let condition = op / 0x100 % 16;
            let target = ((address + 4 + 2 * signed((op % 0x100) as int, 0x100)) % 0x1_0000_0000)
                as u32;
            if condition < 14 {
                code.on && exists|test: Test, inner: Seq<char>|
                    code.text == #[trigger] inside(out, test, inner) && test.says(machine) == passes(
                        condition,
                        machine,
                    ) && does(
                        Seq::empty(),
                        inner,
                        machine,
                        jumped(machine, scope, target, true),
                    )
            } else if condition == 14 {
                code.on && does(
                    out,
                    code.text,
                    machine,
                    machine.seeing(
                        Event::Interprets {
                            address: placed(machine, scope, address) as int,
                            code: op as int,
                        },
                    ),
                )
            } else {
                !code.on && does(
                    out,
                    code.text,
                    machine,
                    machine.leaving(
                        Exit::Kernel {
                            back: placed(machine, scope, address.wrapping_add(2)) as int,
                            number: (op % 0x100) as int,
                        },
                    ),
                )
            }
        }),
{
    let condition = op / 0x100 % 16;
    let target = ((address + 4 + 2 * signed((op % 0x100) as int, 0x100)) % 0x1_0000_0000) as u32;
    lemma_conditional_text(out, scope, address, op, second);
    if condition < 14 {
        let none = Seq::<char>::empty();
        law_conditions(condition, machine);
        law_jumps(none, scope, target, true, machine);
        let test = choose|test: Test| #[trigger]
            test.text() == codegen::condition_text(condition) && test.says(machine) == passes(
                condition,
                machine,
            );
        let inner = codegen::jump_code(none, scope, target, true).text;
        lemma_inside(out, scope, condition, target, test);
        assert(lower::lower_code(out, scope, address, op, second).text == inside(
            out,
            test,
            inner,
        ));
    } else if condition == 14 {
        law_interpreted(out, scope, address, op, machine);
    } else {
        lemma_svc(out, scope, address.wrapping_add(2), op % 0x100, machine);
    }
}

proof fn lemma_conditional_text(out: Seq<char>, scope: Names, address: u32, op: u32, second: u32)
    requires
        0xD000 <= op < 0xE000,
    ensures
        ({
            let code = lower::lower_code(out, scope, address, op, second);
            let condition = op / 0x100 % 16;
            let target = ((address + 4 + 2 * signed((op % 0x100) as int, 0x100)) % 0x1_0000_0000)
                as u32;
            if condition < 14 {
                let opened = text::emitted(
                    out,
                    "    if ({}) {"@,
                    seq![codegen::condition_text(condition)],
                );
                let jumps = codegen::jump_code(opened, scope, target, true).text;
                code.on && code.text == text::emitted(jumps, "    }"@, Seq::empty())
            } else if condition == 14 {
                code == lower::interpret_code(out, scope, address, op)
            } else {
                !code.on && code.text == text::emitted(
                    out,
                    "    SVC({}, 0x{}u);"@,
                    seq![scope.at(address.wrapping_add(2)), text::hex((op % 0x100) as nat)],
                )
            }
        }),
{
    lemma_fields(op);
    lemma_ahead(address, 2 * signed((op % 0x100) as int, 0x100));
}

proof fn lemma_inside(out: Seq<char>, scope: Names, condition: u32, target: u32, test: Test)
    requires
        test.text() == codegen::condition_text(condition),
    ensures
        ({
            let opened = text::emitted(
                out,
                "    if ({}) {"@,
                seq![codegen::condition_text(condition)],
            );
            let jumps = codegen::jump_code(opened, scope, target, true).text;
            text::emitted(jumps, "    }"@, Seq::empty()) == inside(
                out,
                test,
                codegen::jump_code(Seq::empty(), scope, target, true).text,
            )
        }),
{
    let none = Seq::<char>::empty();
    let args = seq![codegen::condition_text(condition)];
    let opened = text::emitted(out, "    if ({}) {"@, args);
    lemma_test_lines(condition);
    lemma_line_appends(out, none, "    if ({}) {"@, args);
    assert(out + none =~= out);
    assert(opened == out + line("    if ({}) {"@, args));
    lemma_branches_append(opened, none, scope, 0, target, true);
    assert(opened + none =~= opened);
    let inner = codegen::jump_code(none, scope, target, true).text;
    let jumps = codegen::jump_code(opened, scope, target, true).text;
    assert(jumps == opened + inner);
    lemma_line_appends(jumps, none, "    }"@, Seq::empty());
    assert(jumps + none =~= jumps);
    assert(opened + inner + line("    }"@, Seq::empty()) =~= inside(out, test, inner));
}

/// the machine once it has called the code that value points at, whose lowest
/// bit says that it is Thumb code, from code that goes on at next.
pub open spec fn exchanged(
    machine: Machine,
    scope: Names,
    next: u32,
    from_thumb: bool,
    value: u32,
) -> Machine {
    let back = placed(machine, scope, next);
    let thumb = value % 2 == 1;
    machine.with_register(
        14,
        if from_thumb && back % 2 == 0 {
            (back + 1) as u32
        } else {
            back
        },
    ).with_field(
        Field::Thumb,
        if thumb {
            1
        } else {
            0
        },
    ).with_register(
        15,
        (value - if thumb {
            1
        } else {
            value % 4
        }) as u32,
    ).starting(Routine::Any).seeing(Event::Comes { back: back as int, thumb: from_thumb })
}

spec fn exchange_line(from_thumb: bool, x: Expression, y: Expression) -> Program {
    if from_thumb {
        lines::exchange_thumb_line(x, y)
    } else {
        lines::exchange_line(x, y)
    }
}

/// the target that bit 0 of v picks the state for.
spec fn exchange_target() -> Expression {
    Expression::Two(
        Operator::And,
        Box::new(Expression::Local(Name::V)),
        Box::new(
            Expression::Group(
                Box::new(
                    Expression::Either(
                        Box::new(Expression::Field(Field::Thumb)),
                        Box::new(Expression::Flip(Box::new(Expression::Unsigned(1)))),
                        Box::new(Expression::Flip(Box::new(Expression::Unsigned(3)))),
                    ),
                ),
            ),
        ),
    )
}

proof fn lemma_exchange_target(m: Machine, value: u32)
    requires
        m.locals[Name::V] == word(value),
        m.field(Field::Thumb) == value % 2,
    ensures
        exchange_target().eval(m) == word(
            (value - if value % 2 == 1 {
                1
            } else {
                value % 4
            }) as u32,
        ),
{
    broadcast use group_running;

    lemma_low_bits(value);
    lemma_words(value, 0xFFFF_FFFE);
    lemma_word_aligned(value);
}

proof fn lemma_linked(m: Machine, y: Expression, back: u32)
    requires
        y.eval(m) == word(back),
    ensures
        Expression::Two(Operator::Or, Box::new(y), Box::new(Expression::Int(1))).eval(m) == word(
            if back % 2 == 0 {
                (back + 1) as u32
            } else {
                back
            },
        ),
{
    broadcast use group_running;

    lemma_key_bits(back);
    lemma_or_one(back);
}

proof fn lemma_or_one(x: u32)
    ensures
        Operator::Or.apply(word(x), small(1)) == word(x | 1),
{
    assert(Type::U32.with(Type::I32) == Type::U32);
    assert(Type::U32.holds(x as int) == x && Type::U32.holds(1) == 1);
    assert(Operator::Or.apply(word(x), small(1)) == small_c::value(
        Type::U32,
        (Type::U32.holds(x as int) as u32 | Type::U32.holds(1) as u32) as int,
    )) by {
        reveal(Operator::apply);
    }
}

proof fn lemma_exchange_run(
    machine: Machine,
    from_thumb: bool,
    x: Expression,
    y: Expression,
    value: u32,
    back: u32,
)
    requires
        x.eval(machine) == word(value),
        y.eval(machine.with_local(Name::V, word(value))) == word(back),
    ensures
        exchange_line(from_thumb, x, y).run(machine) == machine.with_local(
            Name::V,
            word(value),
        ).with_register(
            14,
            if from_thumb && back % 2 == 0 {
                (back + 1) as u32
            } else {
                back
            },
        ).with_field(Field::Thumb, (value % 2) as int).with_register(
            15,
            (value - if value % 2 == 1 {
                1
            } else {
                value % 4
            }) as u32,
        ),
{
    let m_0 = machine.with_local(Name::V, word(value));
    let link = if from_thumb && back % 2 == 0 {
        (back + 1) as u32
    } else {
        back
    };
    lemma_linked(m_0, y, back);
    let m_1 = m_0.with_register(14, link);
    let m_2 = m_1.with_field(Field::Thumb, (value % 2) as int);
    lemma_word_lowest(value);
    lemma_exchange_target(m_2, value);
    let line = exchange_line(from_thumb, x, y);
    broadcast use group_steps;

    assert(small_c::Statement::Declare(
        Type::U32,
        small_c::Declared::One(Name::V, x),
    ).run(machine) == m_0) by {
        broadcast use group_running;

    }
    assert(from_thumb ==> small_c::Statement::Assign(
        small_c::Place::Register(14),
        Expression::Two(Operator::Or, Box::new(y), Box::new(Expression::Int(1))),
    ).run(m_0) == m_1) by {
        broadcast use group_running;

    }
    assert(!from_thumb ==> small_c::Statement::Assign(small_c::Place::Register(14), y).run(m_0)
        == m_1) by {
        broadcast use group_running;

    }
    assert(small_c::Statement::Assign(
        small_c::Place::Field(Field::Thumb),
        Expression::Two(
            Operator::And,
            Box::new(Expression::Local(Name::V)),
            Box::new(Expression::Int(1)),
        ),
    ).run(m_1) == m_2) by {
        broadcast use group_running;

    }
    small_c::lemma_run_assign(small_c::Place::Register(15), exchange_target(), m_2);
}

proof fn lemma_exchanged(
    out: Seq<char>,
    scope: Names,
    machine: Machine,
    from_thumb: bool,
    rs: u32,
    pc: u32,
    next: u32,
)
    requires
        rs <= 15,
    ensures
        ({
            let opened = text::emitted(
                out,
                if from_thumb {
                    "    { uint32_t v = {}; ctx->r[14] = {} | 1; ctx->thumb = v & 1; ctx->r[15] = v & (ctx->thumb ? ~1u : ~3u); }"@
                } else {
                    "    { uint32_t v = {}; ctx->r[14] = {}; ctx->thumb = v & 1; ctx->r[15] = v & (ctx->thumb ? ~1u : ~3u); }"@
                },
                seq![scope.reg(rs, pc), scope.at(next)],
            );
            let runs = text::emitted(opened, "    CALL(recomp_call);"@, Seq::empty());
            let comes = text::emitted(
                runs,
                if from_thumb {
                    "    RETURNED_T({});"@
                } else {
                    "    RETURNED({});"@
                },
                seq![scope.at(next)],
            );
            does(
                out,
                comes,
                machine,
                exchanged(
                    machine,
                    scope,
                    next,
                    from_thumb,
                    read(machine, scope.module is Some, rs, pc),
                ),
            )
        }),
{
    let value = read(machine, scope.module is Some, rs, pc);
    let back = placed(machine, scope, next);
    let x = source(scope, rs, pc);
    let y = place(scope, next);
    let m_0 = machine.with_local(Name::V, word(value));
    lemma_source(scope, rs, pc, machine);
    lemma_place(scope, next, m_0);
    lemma_exchange_run(machine, from_thumb, x, y, value, back);
    let line = exchange_line(from_thumb, x, y);
    let m_1 = line.run(machine);
    lines::lemma_exchange_line(x, y);
    lines::lemma_exchange_thumb_line(x, y);
    let template = if from_thumb {
        "    { uint32_t v = {}; ctx->r[14] = {} | 1; ctx->thumb = v & 1; ctx->r[15] = v & (ctx->thumb ? ~1u : ~3u); }"@
    } else {
        "    { uint32_t v = {}; ctx->r[14] = {}; ctx->thumb = v & 1; ctx->r[15] = v & (ctx->thumb ? ~1u : ~3u); }"@
    };
    lemma_grown_none(out, machine);
    lemma_line_grown(out, out, machine, machine, line, template, seq![x.text(), y.text()]);
    let text_1 = text::emitted(out, template, seq![x.text(), y.text()]);
    lines::lemma_enter_any_line();
    let m_2 = m_1.starting(Routine::Any);
    assert(lines::enter_any_line().run(m_1) == m_2) by {
        broadcast use group_running;

    }
    lemma_line_grown(
        out,
        text_1,
        machine,
        m_1,
        lines::enter_any_line(),
        "    CALL(recomp_call);"@,
        Seq::empty(),
    );
    let text_2 = text::emitted(text_1, "    CALL(recomp_call);"@, Seq::empty());
    lemma_place(scope, next, m_2);
    lines::lemma_expect_plain_line(y);
    lines::lemma_expect_thumb_plain_line(y);
    let end = m_2.seeing(Event::Comes { back: back as int, thumb: from_thumb });
    let last = if from_thumb {
        lines::expect_thumb_plain_line(y)
    } else {
        lines::expect_plain_line(y)
    };
    assert(last.run(m_2) == end) by {
        broadcast use group_running;

    }
    let ending = if from_thumb {
        "    RETURNED_T({});"@
    } else {
        "    RETURNED({});"@
    };
    lemma_line_grown(out, text_2, machine, m_2, last, ending, seq![y.text()]);
    lemma_grown_does(
        out,
        text::emitted(text_2, ending, seq![y.text()]),
        machine,
        end,
        exchanged(machine, scope, next, from_thumb, value),
    );
}

/// blx through a register of Thumb code.
pub proof fn law_thumb_register_calls(
    out: Seq<char>,
    scope: Names,
    address: u32,
    op: u32,
    second: u32,
    machine: Machine,
)
    requires
        0x4780 <= op < 0x4800,
    ensures
        ({
            let code = lower::lower_code(out, scope, address, op, second);
            let value = read(
                machine,
                scope.module is Some,
                op / 8 % 16,
                address.wrapping_add(4),
            );
            code.on && does(
                out,
                code.text,
                machine,
                exchanged(machine, scope, address.wrapping_add(2), true, value),
            )
        }),
{
    lemma_fields(op);
    lemma_exchanged(
        out,
        scope,
        machine,
        true,
        op / 8 % 16,
        address.wrapping_add(4),
        address.wrapping_add(2),
    );
    assert(lower::lower_code(out, scope, address, op, second) == lower::high_register_code(
        out,
        scope,
        address,
        op,
    ));
}

/// bx goes where its register points, as a return through lr, and blx calls it.
pub proof fn law_arm_register_branches(
    out: Seq<char>,
    scope: Names,
    address: u32,
    op: u32,
    machine: Machine,
)
    requires
        op / 16 == 0xE12_FFF1 || op / 16 == 0xE12_FFF3,
    ensures
        ({
            let code = arm_lower::lower_code(out, scope, address, op);
            let value = read(machine, scope.module is Some, op % 16, address.wrapping_add(8));
            if op / 16 == 0xE12_FFF3 {
                code.on && does(
                    out,
                    code.text,
                    machine,
                    exchanged(machine, scope, address.wrapping_add(4), false, value),
                )
            } else {
                !code.on && does(
                    out,
                    code.text,
                    machine,
                    machine.leaving(
                        Exit::To { address: value as int, returns: op % 16 == 14 },
                    ),
                )
            }
        }),
{
    lemma_exchange_fields(op);
    let pc = address.wrapping_add(8);
    assert(arm_lower::lower_code(out, scope, address, op) == arm_lower::branch_exchange_code(
        out,
        scope,
        address,
        op,
    ));
    if op / 16 == 0xE12_FFF3 {
        lemma_exchanged(out, scope, machine, false, op % 16, pc, address.wrapping_add(4));
    } else {
        lemma_exchanges(out, scope, pc, machine, op % 16);
    }
}

proof fn lemma_exchange_fields(op: u32)
    by (bit_vector)
    requires
        op / 16 == 0xE12_FFF1 || op / 16 == 0xE12_FFF3,
    ensures
        op >> 28 == 14,
        (op >> 25) & 7 == 0,
        op & 0x90 != 0x90,
        (op >> 23) & 3 == 2,
        op & (1u32 << 20) == 0,
        (op >> 21) & 3 == 1,
        op & 0xF == op % 16,
        op / 16 == 0xE12_FFF1 ==> (op >> 4) & 0xF == 1,
        op / 16 == 0xE12_FFF3 ==> (op >> 4) & 0xF == 3,
{
}

} // verus!
