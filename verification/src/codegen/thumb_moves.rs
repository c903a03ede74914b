//! what the C for Thumb instructions that move values between registers does.

use crate::codegen::architecture::{difference, read, sound, with_flags};
use crate::codegen::arm as lowering;
use crate::codegen::operands::{lemma_place, lemma_source, place, source};
use crate::codegen::running::{
    comparison, lemma_comparison, lemma_shifted_words, lemma_words, small, word,
};
use crate::codegen::small_c;
use crate::codegen::small_c::{
    does, group_running, lemma_line_does, reversed_bytes, Exit, Expression, Machine, Name, Operator,
    Type,
};
use crate::codegen::thumb as lower;
use crate::codegen::thumb_lines as lines;
use crate::codegen::thumb_meaning::lemma_fields;
use crate::codegen::thumb_transfers::lemma_literal_place;
use crate::codegen::Names;
use crate::text;
use vstd::prelude::*;

verus! {

/// add of so many words to sp, or to pc, which is two instructions ahead and
/// counted from the start of its word.
pub proof fn law_add_address(
    out: Seq<char>,
    scope: Names,
    address: u32,
    op: u32,
    second: u32,
    machine: Machine,
)
    requires
        0xA000 <= op < 0xB000,
        sound(machine),
    ensures
        ({
            let code = lower::lower_code(out, scope, address, op, second);
            let rd = (op / 0x100 % 8) as int;
            let pc = (address + 4) % 0x1_0000_0000;
            let start = if op / 0x800 % 2 == 1 {
                machine.r[13] as int
            } else if scope.module is Some {
                pc - pc % 4 + machine.module
            } else {
                pc - pc % 4
            };
            let result = ((start + 4 * (op % 0x100)) % 0x1_0000_0000) as u32;
            code.on && does(out, code.text, machine, machine.with_register(rd, result))
        }),
{
    lemma_fields(op);
    let rd = (op / 0x100 % 8) as nat;
    if op / 0x800 % 2 == 1 {
        let distance = (op % 0x100 * 4) as nat;
        let result = ((machine.r[13] + distance) % 0x1_0000_0000) as u32;
        lines::lemma_stack_address_line(rd, distance);
        assert(lines::stack_address_line(rd, distance).run(machine) == machine.with_register(
            rd as int,
            result,
        )) by {
            broadcast use group_running;

            lemma_words(machine.r[13], distance as u32);
        }
        lemma_line_does(
            out,
            "    ctx->r[{}] = ctx->r[13] + 0x{}u;"@,
            seq![text::dec(rd), text::hex(distance)],
            lines::stack_address_line(rd, distance),
            machine,
            machine.with_register(rd as int, result),
        );
    } else {
        let base = if scope.module is Some {
            machine.module as int
        } else {
            0
        };
        let literal = lower::literal_of(address, op);
        lemma_literal_place(address, op, base);
        lemma_place(scope, literal, machine);
        lemma_move(
            out,
            machine,
            rd,
            place(scope, literal),
            ((literal + base) % 0x1_0000_0000) as u32,
        );
    }
}

/// a register set to what an expression comes to.
proof fn lemma_move(out: Seq<char>, machine: Machine, rd: nat, x: Expression, result: u32)
    requires
        x.grouped(),
        x.eval(machine).number == result,
    ensures
        does(
            out,
            text::emitted(out, "    ctx->r[{}] = {};"@, seq![text::dec(rd), x.text()]),
            machine,
            machine.with_register(rd as int, result),
        ),
{
    lines::lemma_high_move_line(rd, x);
    assert(lines::high_move_line(rd, x).run(machine) == machine.with_register(rd as int, result))
        by {
        broadcast use group_running;

    }
    lemma_line_does(
        out,
        "    ctx->r[{}] = {};"@,
        seq![text::dec(rd), x.text()],
        lines::high_move_line(rd, x),
        machine,
        machine.with_register(rd as int, result),
    );
}

/// add and sub of so many words to sp.
pub proof fn law_stack_moves(
    out: Seq<char>,
    scope: Names,
    address: u32,
    op: u32,
    second: u32,
    machine: Machine,
)
    requires
        0xB000 <= op < 0xB100,
        sound(machine),
    ensures
        ({
            let code = lower::lower_code(out, scope, address, op, second);
            let distance = 4 * (op % 0x80) as int;
            let result = ((if op / 0x80 % 2 == 1 {
                machine.r[13] - distance
            } else {
                machine.r[13] + distance
            }) % 0x1_0000_0000) as u32;
            code.on && does(out, code.text, machine, machine.with_register(13, result))
        }),
{
    lemma_fields(op);
    let distance = (op % 0x80 * 4) as nat;
    let down = op / 0x80 % 2 == 1;
    let result = ((if down {
        machine.r[13] - distance
    } else {
        machine.r[13] + distance
    }) % 0x1_0000_0000) as u32;
    let line = if down {
        lines::stack_down_line(distance)
    } else {
        lines::stack_up_line(distance)
    };
    lines::lemma_stack_down_line(distance);
    lines::lemma_stack_up_line(distance);
    assert(line.run(machine) == machine.with_register(13, result)) by {
        broadcast use group_running;

        lemma_words(machine.r[13], distance as u32);
    }
    lemma_line_does(
        out,
        "    ctx->r[13] = ctx->r[13] {} 0x{}u;"@,
        seq![lowering::sign_text(!down), text::hex(distance)],
        line,
        machine,
        machine.with_register(13, result),
    );
}

/// value without its lowest bit.
spec fn even(value: u32) -> u32 {
    (value - value % 2) as u32
}

proof fn lemma_even(x: Expression, machine: Machine, number: u32)
    requires
        x.eval(machine) == word(number),
    ensures
        Expression::Two(
            Operator::And,
            Box::new(x),
            Box::new(Expression::Flip(Box::new(Expression::Unsigned(1)))),
        ).eval(machine) == word(even(number)),
{
    broadcast use group_running;

    lemma_low_bits(number);
    lemma_words(number, 0xFFFF_FFFE);
}

/// add, cmp, mov and bx on all the registers. what goes to pc stays in Thumb and
/// goes where the even part of it says, but for bx, where the lowest bit picks
/// the state.
pub proof fn law_high_registers(
    out: Seq<char>,
    scope: Names,
    address: u32,
    op: u32,
    second: u32,
    machine: Machine,
)
    requires
        0x4400 <= op < 0x4780,
        sound(machine),
    ensures
        ({
            let code = lower::lower_code(out, scope, address, op, second);
            let pc = address.wrapping_add(4);
            let rd = op % 8 + 8 * (op / 0x80 % 2);
            let rs = op / 8 % 16;
            let x = read(machine, scope.module is Some, rd as u32, pc);
            let y = read(machine, scope.module is Some, rs, pc);
            let kind = op / 0x100 % 4;
            let total = ((x + y) % 0x1_0000_0000) as u32;
            if kind == 0 {
                if rd == 15 {
                    !code.on && does(
                        out,
                        code.text,
                        machine,
                        machine.leaving(Exit::Dispatch { target: total - total % 2 }),
                    )
                } else {
                    code.on && does(out, code.text, machine, machine.with_register(rd as int, total))
                }
            } else if kind == 1 {
                code.on && does(out, code.text, machine, with_flags(machine, difference(x, y)))
            } else if kind == 2 {
                if rd != 15 {
                    code.on && does(out, code.text, machine, machine.with_register(rd as int, y))
                } else if rs == 14 {
                    !code.on && does(
                        out,
                        code.text,
                        machine,
                        machine.with_register(15, (y - y % 2) as u32).leaving(Exit::Back),
                    )
                } else {
                    !code.on && does(
                        out,
                        code.text,
                        machine,
                        machine.leaving(Exit::Dispatch { target: y - y % 2 }),
                    )
                }
            } else {
                !code.on && does(
                    out,
                    code.text,
                    machine,
                    machine.leaving(Exit::To { address: y as int, returns: rs == 14 }),
                )
            }
        }),
{
    lemma_fields(op);
    let pc = address.wrapping_add(4);
    let rd = (op % 8 + 8 * (op / 0x80 % 2)) as u32;
    let rs = op / 8 % 16;
    let kind = op / 0x100 % 4;
    assert(lower::lower_code(out, scope, address, op, second) == lower::high_register_code(
        out,
        scope,
        address,
        op,
    ));
    lemma_source(scope, rd, pc, machine);
    lemma_source(scope, rs, pc, machine);
    if kind == 0 {
        lemma_high_add(out, scope, pc, machine, rd, rs);
    } else if kind == 1 {
        lemma_high_compare(out, scope, pc, machine, rd, rs);
    } else if kind == 2 {
        if rd != 15 {
            lemma_move(
                out,
                machine,
                rd as nat,
                source(scope, rs, pc),
                read(machine, scope.module is Some, rs, pc),
            );
        } else {
            lemma_high_leaves(out, scope, pc, machine, rs);
        }
    } else {
        lemma_exchanges(out, scope, pc, machine, rs);
    }
}

proof fn lemma_high_add(
    out: Seq<char>,
    scope: Names,
    pc: u32,
    machine: Machine,
    rd: u32,
    rs: u32,
)
    requires
        rd <= 15,
        rs <= 15,
    ensures
        ({
            let x = read(machine, scope.module is Some, rd, pc);
            let y = read(machine, scope.module is Some, rs, pc);
            let total = ((x + y) % 0x1_0000_0000) as u32;
            let texts = seq![scope.reg(rd, pc), scope.reg(rs, pc)];
            &&& does(
                out,
                text::emitted(out, "    target = ({} + {}) & ~1u; goto dispatch;"@, texts),
                machine,
                machine.leaving(Exit::Dispatch { target: even(total) as int }),
            )
            &&& does(
                out,
                text::emitted(
                    out,
                    "    ctx->r[{}] = {} + {};"@,
                    seq![text::dec(rd as nat), texts[0], texts[1]],
                ),
                machine,
                machine.with_register(rd as int, total),
            )
        }),
{
    let x = read(machine, scope.module is Some, rd, pc);
    let y = read(machine, scope.module is Some, rs, pc);
    let total = ((x + y) % 0x1_0000_0000) as u32;
    let e = source(scope, rd, pc);
    let f = source(scope, rs, pc);
    lemma_source(scope, rd, pc, machine);
    lemma_source(scope, rs, pc, machine);
    lemma_words(x, y);
    let added = Expression::Two(Operator::Plus, Box::new(e), Box::new(f));
    let group = Expression::Group(Box::new(added));
    assert(added.eval(machine) == word(total) && group.eval(machine) == word(total)) by {
        broadcast use group_running;

    }
    lemma_even(group, machine, total);
    lines::lemma_high_add_pc_line(e, f);
    lines::lemma_high_add_line(rd as nat, e, f);
    let left = machine.with_local(Name::Target, word(even(total)));
    assert(lines::high_add_pc_line(e, f).run(machine) == left.leaving(
        Exit::Dispatch { target: even(total) as int },
    )) by {
        broadcast use group_running;

    }
    lemma_line_does(
        out,
        "    target = ({} + {}) & ~1u; goto dispatch;"@,
        seq![e.text(), f.text()],
        lines::high_add_pc_line(e, f),
        machine,
        machine.leaving(Exit::Dispatch { target: even(total) as int }),
    );
    assert(lines::high_add_line(rd as nat, e, f).run(machine) == machine.with_register(
        rd as int,
        total,
    )) by {
        broadcast use group_running;

    }
    lemma_line_does(
        out,
        "    ctx->r[{}] = {} + {};"@,
        seq![text::dec(rd as nat), e.text(), f.text()],
        lines::high_add_line(rd as nat, e, f),
        machine,
        machine.with_register(rd as int, total),
    );
}

proof fn lemma_high_compare(
    out: Seq<char>,
    scope: Names,
    pc: u32,
    machine: Machine,
    rd: u32,
    rs: u32,
)
    requires
        rd <= 15,
        rs <= 15,
        sound(machine),
    ensures
        does(
            out,
            text::emitted(
                out,
                "    { uint32_t a = {}, b = {}, r = a - b; {} }"@,
                seq![scope.reg(rd, pc), scope.reg(rs, pc), lower::SUB_FLAGS@],
            ),
            machine,
            with_flags(
                machine,
                difference(
                    read(machine, scope.module is Some, rd, pc),
                    read(machine, scope.module is Some, rs, pc),
                ),
            ),
        ),
{
    let x = read(machine, scope.module is Some, rd, pc);
    let y = read(machine, scope.module is Some, rs, pc);
    let e = source(scope, rd, pc);
    let f = source(scope, rs, pc);
    lemma_source(scope, rd, pc, machine);
    lemma_source(scope, rs, pc, machine);
    lemma_source(scope, rs, pc, machine.with_local(Name::A, word(x)));
    lines::lemma_high_compare_line(e, f);
    lemma_comparison(machine, e, f, x, y);
    assert(lines::high_compare_line(e, f) == comparison(e, f));
    lemma_line_does(
        out,
        "    { uint32_t a = {}, b = {}, r = a - b; {} }"@,
        seq![e.text(), f.text(), lower::SUB_FLAGS@],
        lines::high_compare_line(e, f),
        machine,
        with_flags(machine, difference(x, y)),
    );
}

proof fn lemma_high_leaves(out: Seq<char>, scope: Names, pc: u32, machine: Machine, rs: u32)
    requires
        rs <= 15,
    ensures
        ({
            let y = read(machine, scope.module is Some, rs, pc);
            &&& does(
                out,
                text::emitted(
                    out,
                    "    target = {} & ~1u; goto dispatch;"@,
                    seq![scope.reg(rs, pc)],
                ),
                machine,
                machine.leaving(Exit::Dispatch { target: even(y) as int }),
            )
            &&& rs == 14 ==> does(
                out,
                text::emitted(out, "    ctx->r[15] = ctx->r[14] & ~1u; return;"@, Seq::empty()),
                machine,
                machine.with_register(15, even(y)).leaving(Exit::Back),
            )
        }),
{
    let y = read(machine, scope.module is Some, rs, pc);
    let f = source(scope, rs, pc);
    lemma_source(scope, rs, pc, machine);
    lemma_even(f, machine, y);
    lines::lemma_high_move_pc_line(f);
    assert(lines::high_move_pc_line(f).run(machine) == machine.with_local(
        Name::Target,
        word(even(y)),
    ).leaving(Exit::Dispatch { target: even(y) as int })) by {
        broadcast use group_running;

    }
    lemma_line_does(
        out,
        "    target = {} & ~1u; goto dispatch;"@,
        seq![f.text()],
        lines::high_move_pc_line(f),
        machine,
        machine.leaving(Exit::Dispatch { target: even(y) as int }),
    );
    if rs == 14 {
        lines::lemma_high_return_line();
        assert(Expression::Register(14).eval(machine) == word(y)) by {
            broadcast use group_running;

        }
        lemma_even(Expression::Register(14), machine, y);
        assert(lines::high_return_line().run(machine) == machine.with_register(15, even(y)).leaving(
            Exit::Back,
        )) by {
            broadcast use group_running;

        }
        lemma_line_does(
            out,
            "    ctx->r[15] = ctx->r[14] & ~1u; return;"@,
            Seq::empty(),
            lines::high_return_line(),
            machine,
            machine.with_register(15, even(y)).leaving(Exit::Back),
        );
    }
}

/// a register is gone to, as a jump or a return.
pub proof fn lemma_exchanges(out: Seq<char>, scope: Names, pc: u32, machine: Machine, rs: u32)
    requires
        rs <= 15,
    ensures
        ({
            let y = read(machine, scope.module is Some, rs, pc);
            &&& does(
                out,
                text::emitted(out, "    JUMP_TO({});"@, seq![scope.reg(rs, pc)]),
                machine,
                machine.leaving(Exit::To { address: y as int, returns: false }),
            )
            &&& rs == 14 ==> does(
                out,
                text::emitted(out, "    RETURN_TO(ctx->r[14]);"@, Seq::empty()),
                machine,
                machine.leaving(Exit::To { address: y as int, returns: true }),
            )
        }),
{
    let y = read(machine, scope.module is Some, rs, pc);
    let f = source(scope, rs, pc);
    lemma_source(scope, rs, pc, machine);
    lines::lemma_jump_to_line(f);
    assert(lines::jump_to_line(f).run(machine) == machine.leaving(
        Exit::To { address: y as int, returns: false },
    )) by {
        broadcast use group_running;

    }
    lemma_line_does(
        out,
        "    JUMP_TO({});"@,
        seq![f.text()],
        lines::jump_to_line(f),
        machine,
        machine.leaving(Exit::To { address: y as int, returns: false }),
    );
    if rs == 14 {
        lines::lemma_return_lr_line();
        assert(lines::return_lr_line().run(machine) == machine.leaving(
            Exit::To { address: y as int, returns: true },
        )) by {
            broadcast use group_running;

        }
        lemma_line_does(
            out,
            "    RETURN_TO(ctx->r[14]);"@,
            Seq::empty(),
            lines::return_lr_line(),
            machine,
            machine.leaving(Exit::To { address: y as int, returns: true }),
        );
    }
}

/// the low half or byte of value, with its sign or with zeros above it, as sxth,
/// sxtb, uxth and uxtb have it, in the order of their numbers.
pub open spec fn extended(kind: u32, value: u32) -> u32 {
    let half = value % 0x1_0000;
    let byte = value % 0x100;
    if kind == 0 {
        if half >= 0x8000 {
            (half + 0xFFFF_0000) as u32
        } else {
            half
        }
    } else if kind == 1 {
        if byte >= 0x80 {
            (byte + 0xFFFF_FF00) as u32
        } else {
            byte
        }
    } else if kind == 2 {
        half
    } else {
        byte
    }
}

/// sxth, sxtb, uxth and uxtb.
pub proof fn law_extensions(
    out: Seq<char>,
    scope: Names,
    address: u32,
    op: u32,
    second: u32,
    machine: Machine,
)
    requires
        0xB200 <= op < 0xB300,
        sound(machine),
    ensures
        ({
            let code = lower::lower_code(out, scope, address, op, second);
            code.on && does(
                out,
                code.text,
                machine,
                machine.with_register(
                    (op % 8) as int,
                    extended(op / 0x40 % 4, machine.r[(op / 8 % 8) as int]),
                ),
            )
        }),
{
    lemma_fields(op);
    let rs = (op / 8 % 8) as nat;
    let kind = op / 0x40 % 4;
    let x = if kind == 0 {
        lines::extend_half(rs)
    } else if kind == 1 {
        lines::extend_byte(rs)
    } else if kind == 2 {
        lines::low_half(rs)
    } else {
        lines::low_byte(rs)
    };
    lines::lemma_extend_half(rs);
    lines::lemma_extend_byte(rs);
    lines::lemma_low_half(rs);
    lines::lemma_low_byte(rs);
    lemma_extended(machine, rs);
    lemma_move(out, machine, (op % 8) as nat, x, extended(kind, machine.r[rs as int]));
}

/// the low bits of a number and the bytes of it.
pub proof fn lemma_low_bits(x: u32)
    by (bit_vector)
    ensures
        x & 0xFF == x % 0x100,
        x & 0xFFFF == x % 0x1_0000,
        x & 0xFFFF_FFFE == x - x % 2,
        ((x & 0x00FF_00FF) << 8) | ((x & 0xFF00_FF00) >> 8) == (x / 0x100 % 0x100 + x % 0x100
            * 0x100 + x / 0x100_0000 * 0x1_0000 + x / 0x1_0000 % 0x100 * 0x100_0000) as u32,
        ((x & 0xFF) << 8) | ((x >> 8) & 0xFF) == (x / 0x100 % 0x100 + x % 0x100 * 0x100) as u32,
{
}

/// a word with a small number, as the operators that go by bits have it.
proof fn lemma_masked(x: u32)
    ensures
        Operator::And.apply(word(x), small(0xFF)) == word(x % 0x100),
        Operator::And.apply(word(x), small(0xFFFF)) == word(x % 0x1_0000),
{
    lemma_low_bits(x);
    lemma_small_mask(x, 0xFF);
    lemma_small_mask(x, 0xFFFF);
}

proof fn lemma_small_mask(x: u32, mask: u32)
    requires
        mask <= 0xFFFF,
    ensures
        Operator::And.apply(word(x), small(mask as nat)) == word(x & mask),
{
    assert(Type::U32.with(Type::I32) == Type::U32);
    assert(Type::U32.holds(x as int) == x && Type::U32.holds(mask as int) == mask);
    assert(Operator::And.apply(word(x), small(mask as nat)) == small_c::value(
        Type::U32,
        (Type::U32.holds(x as int) as u32 & Type::U32.holds(mask as int) as u32) as int,
    )) by {
        reveal(Operator::apply);
    }
}

proof fn lemma_extended(machine: Machine, rs: nat)
    ensures
        ({
            let value = machine.r[rs as int];
            &&& lines::extend_half(rs).eval(machine).number == extended(0, value)
            &&& lines::extend_byte(rs).eval(machine).number == extended(1, value)
            &&& lines::low_half(rs).eval(machine).number == extended(2, value)
            &&& lines::low_byte(rs).eval(machine).number == extended(3, value)
        }),
{
    broadcast use group_running;

    lemma_masked(machine.r[rs as int]);
}

/// the bytes of value in the other order, those of each half, and those of the
/// low half with its sign, as rev, rev16 and revsh have it.
pub open spec fn turned_around(kind: u32, value: u32) -> u32 {
    let low = value % 0x100;
    let next = value / 0x100 % 0x100;
    if kind == 0 {
        reversed_bytes(value)
    } else if kind == 1 {
        (next + low * 0x100 + value / 0x100_0000 * 0x1_0000 + value / 0x1_0000 % 0x100
            * 0x100_0000) as u32
    } else if low >= 0x80 {
        (next + low * 0x100 + 0xFFFF_0000) as u32
    } else {
        (next + low * 0x100) as u32
    }
}

/// rev, rev16 and revsh.
pub proof fn law_reversals(
    out: Seq<char>,
    scope: Names,
    address: u32,
    op: u32,
    second: u32,
    machine: Machine,
)
    requires
        0xBA00 <= op < 0xBB00,
        op / 0x40 % 4 != 2,
        sound(machine),
    ensures
        ({
            let code = lower::lower_code(out, scope, address, op, second);
            code.on && does(
                out,
                code.text,
                machine,
                machine.with_register(
                    (op % 8) as int,
                    turned_around(op / 0x40 % 4, machine.r[(op / 8 % 8) as int]),
                ),
            )
        }),
{
    lemma_fields(op);
    let rs = (op / 8 % 8) as nat;
    let kind = op / 0x40 % 4;
    let x = if kind == 0 {
        lines::reverse_bytes(rs)
    } else if kind == 1 {
        lines::reverse_halves(rs)
    } else {
        lines::reverse_signed(rs)
    };
    if kind == 0 {
        lines::lemma_reverse_bytes(rs);
        lemma_bytes(machine, rs);
    } else if kind == 1 {
        lines::lemma_reverse_halves(rs);
        lemma_halves(machine, rs);
    } else {
        lines::lemma_reverse_signed(rs);
        lemma_signed_half(machine, rs);
    }
    assert(x.text() == lower::reversed_text(
        kind,
        crate::codegen::register_text(rs as u32),
    ));
    lemma_move(out, machine, (op % 8) as nat, x, turned_around(kind, machine.r[rs as int]));
}

proof fn lemma_bytes(machine: Machine, rs: nat)
    ensures
        lines::reverse_bytes(rs).eval(machine).number == turned_around(0, machine.r[rs as int]),
{
    broadcast use group_running;

    small_c::lemma_eval_call(Expression::Register(rs), machine);
}

proof fn lemma_halves(machine: Machine, rs: nat)
    ensures
        lines::reverse_halves(rs).eval(machine).number == turned_around(1, machine.r[rs as int]),
{
    broadcast use group_running;

    let x = machine.r[rs as int];
    lemma_words(x, 0x00FF_00FF);
    lemma_words(x, 0xFF00_FF00);
    lemma_shifted_words(x & 0x00FF_00FF, 8);
    lemma_shifted_words(x & 0xFF00_FF00, 8);
    lemma_words((x & 0x00FF_00FF) << 8, (x & 0xFF00_FF00) >> 8);
    lemma_low_bits(x);
}

/// the low two bytes the other way round.
spec fn swapped_half(rs: nat) -> Expression {
    let x = Box::new(Expression::Register(rs));
    let mask = Box::new(Expression::Hex { number: 0xFF, width: 0, unsigned: false });
    let low = Expression::Group(Box::new(Expression::Two(Operator::And, x, mask)));
    let high = Expression::Group(
        Box::new(Expression::Two(Operator::Right, x, Box::new(Expression::Int(8)))),
    );
    Expression::Group(
        Box::new(
            Expression::Two(
                Operator::Or,
                Box::new(
                    Expression::Group(
                        Box::new(
                            Expression::Two(
                                Operator::Left,
                                Box::new(low),
                                Box::new(Expression::Int(8)),
                            ),
                        ),
                    ),
                ),
                Box::new(
                    Expression::Group(
                        Box::new(Expression::Two(Operator::And, Box::new(high), mask)),
                    ),
                ),
            ),
        ),
    )
}

proof fn lemma_swapped_half(machine: Machine, rs: nat)
    ensures
        ({
            let x = machine.r[rs as int];
            swapped_half(rs).eval(machine) == word(((x & 0xFF) << 8) | ((x >> 8) & 0xFF))
        }),
{
    broadcast use group_running;

    let x = machine.r[rs as int];
    lemma_small_mask(x, 0xFF);
    lemma_shifted_words(x, 8);
    lemma_small_mask(x >> 8, 0xFF);
    lemma_shifted_words(x & 0xFF, 8);
    lemma_words((x & 0xFF) << 8, (x >> 8) & 0xFF);
}

proof fn lemma_signed_half(machine: Machine, rs: nat)
    ensures
        lines::reverse_signed(rs).eval(machine).number == turned_around(3, machine.r[rs as int]),
{
    let x = machine.r[rs as int];
    let half = Expression::Cast(Type::I16, Box::new(swapped_half(rs)));
    let whole = Expression::Cast(Type::I32, Box::new(half));
    lemma_swapped_half(machine, rs);
    lemma_low_bits(x);
    small_c::lemma_eval_cast(Type::I16, Box::new(swapped_half(rs)), machine);
    small_c::lemma_eval_cast(Type::I32, Box::new(half), machine);
    small_c::lemma_eval_cast(Type::U32, Box::new(whole), machine);
    assert(lines::reverse_signed(rs) == Expression::Cast(Type::U32, Box::new(whole)));
}

} // verus!
