//! what the C for ARM loads and stores does.

use crate::arm::laws::{condition, kind};
use crate::codegen::architecture::{flag, four, read, shifted, sound, taken, transferred, Transfer};
use crate::codegen::arm as lower;
use crate::codegen::arm_meaning::lemma_shift_bits;
use crate::codegen::branches::lemma_arm_fields;
use crate::codegen::lines as common;
use crate::codegen::operands::{lemma_source, lemma_word_signed, source};
use crate::codegen::running::{lemma_shifted_words, lemma_words, small, word};
use crate::codegen::small_c::{
    does, group_running, group_steps, grown, lemma_eval_call2, lemma_grown_does, lemma_grown_none,
    lemma_line_grown, Exit, Expression, Field, Machine, Name, Operator, Program, Type, Value,
};
use crate::codegen::transfer_lines as lines;
use crate::codegen::Names;
use crate::text;
use vstd::prelude::*;

verus! {

/// a register shifted by an immediate, as an expression.
spec fn register_offset(x: Expression, kind: u32, amount: u32) -> Expression {
    let n = amount as nat;
    if kind == 0 {
        lines::left_offset(x, n)
    } else if kind == 1 {
        if amount == 0 {
            common::zero_expression()
        } else {
            lines::right_offset(x, n)
        }
    } else if kind == 2 {
        if amount == 0 {
            lines::all_signed_offset(x)
        } else {
            lines::signed_offset(x, n)
        }
    } else if amount == 0 {
        lines::through_offset(x)
    } else {
        lines::around_offset(x, n)
    }
}

proof fn lemma_register_offset_text(x: Expression, kind: u32, amount: u32)
    requires
        x.grouped(),
        x.strength() == 16,
        kind <= 3,
        amount < 32,
    ensures
        register_offset(x, kind, amount).text() == lower::offset_text(x.text(), kind, amount),
        register_offset(x, kind, amount).grouped(),
        register_offset(x, kind, amount).strength() >= 15,
{
    let n = amount as nat;
    if kind == 0 {
        lines::lemma_left_offset(x, n);
    } else if kind == 1 {
        common::lemma_zero_expression();
        lines::lemma_right_offset(x, n);
    } else if kind == 2 {
        lines::lemma_all_signed_offset(x);
        lines::lemma_signed_offset(x, n);
    } else {
        lines::lemma_through_offset(x);
        lines::lemma_around_offset(x, n);
    }
}

/// a value that has no sign, or none that shows.
spec fn is_word(value: Value, number: u32) -> bool {
    value == word(number) || (value == small(0) && number == 0)
}

proof fn lemma_register_offset_evals(
    m: Machine,
    x: Expression,
    value: u32,
    kind: u32,
    amount: u32,
)
    requires
        kind <= 3,
        amount < 32,
        x.eval(m) == word(value),
        0 <= m.field(Field::C) <= 1,
    ensures
        is_word(
            register_offset(x, kind, amount).eval(m),
            shifted(kind, value, amount, m.field(Field::C)).0,
        ),
{
    let n = amount as nat;
    let carry = m.field(Field::C);
    lemma_shift_bits(value, amount, carry as u32);
    if kind == 0 {
        lemma_shifted_words(value, n);
        assert(lines::left_offset(x, n).eval(m) == word(value << amount)) by {
            broadcast use group_running;

        }
    } else if kind == 1 {
        lemma_shifted_words(value, n);
        broadcast use group_running;

    } else if kind == 2 {
        lemma_word_signed(value, 31);
        lemma_word_signed(value, n);
        broadcast use group_running;

    } else if amount == 0 {
        lemma_shifted_words(value, 1);
        lemma_shifted_words(carry as u32, 31);
        lemma_words((carry as u32) << 31, value >> 1);
        broadcast use group_running;

        assert(Expression::Cast(Type::U32, Box::new(Expression::Field(Field::C))).eval(m) == word(
            carry as u32,
        ));
    } else {
        lemma_eval_call2(x, Expression::Int(n), m);
        assert(Expression::Int(n).eval(m) == small(n)) by {
            broadcast use group_running;

        }
    }
}

/// the offset of a load or store of a word or byte.
spec fn single_offset(scope: Names, address: u32, op: u32) -> Expression {
    if flag(op, 25) {
        register_offset(
            source(scope, op % 16, address.wrapping_add(8)),
            (op >> 5) % 4,
            (op >> 7) % 32,
        )
    } else {
        lines::plain_offset((op % 0x1000) as nat)
    }
}

/// what that offset comes to.
pub open spec fn single_distance(machine: Machine, module: bool, address: u32, op: u32) -> u32 {
    if flag(op, 25) {
        shifted(
            (op >> 5) % 4,
            read(machine, module, op % 16, address.wrapping_add(8)),
            (op >> 7) % 32,
            machine.field(Field::C),
        ).0
    } else {
        op % 0x1000
    }
}

/// ldr, str, ldrb and strb, as their encoding has them.
pub open spec fn single(machine: Machine, module: bool, address: u32, op: u32) -> Transfer {
    Transfer {
        load: flag(op, 20),
        bits: if flag(op, 22) {
            8
        } else {
            32
        },
        signed: false,
        rd: four(op, 12),
        rn: four(op, 16),
        pre: flag(op, 24),
        up: flag(op, 23),
        offset: single_distance(machine, module, address, op),
        fixed: !flag(op, 25),
        back: (!flag(op, 24) || flag(op, 21)) && !(flag(op, 20) && four(op, 12) == four(op, 16)),
    }
}

/// base is the base and oa the base with the offset.
spec fn has_base(m: Machine, base: u32, oa: u32) -> bool {
    m.locals[Name::Base] == word(base) && m.locals[Name::Oa] == word(oa)
}

/// the machine with both.
spec fn with_base(m: Machine, base: u32, oa: u32) -> Machine {
    m.with_local(Name::Base, word(base)).with_local(Name::Oa, word(oa))
}

spec fn base_line(up: bool, x: Expression, y: Expression) -> Program {
    if up {
        lines::base_up_line(x, y)
    } else {
        lines::base_down_line(x, y)
    }
}

/// the block opens with the base and where the offset leads.
proof fn lemma_opened(
    out: Seq<char>,
    machine: Machine,
    up: bool,
    x: Expression,
    y: Expression,
    base: u32,
    offset: u32,
)
    requires
        x.grouped(),
        y.grouped(),
        y.strength() >= 15,
        x.eval(machine) == word(base),
        is_word(y.eval(machine.with_local(Name::Base, word(base))), offset),
    ensures
        grown(
            out,
            text::emitted(
                out,
                "    { uint32_t base = {}, oa = base {} {};"@,
                seq![x.text(), lower::sign_text(up), y.text()],
            ),
            machine,
            with_base(
                machine,
                base,
                ((if up {
                    base + offset
                } else {
                    base - offset
                }) % 0x1_0000_0000) as u32,
            ),
        ),
{
    let oa = ((if up {
        base + offset
    } else {
        base - offset
    }) % 0x1_0000_0000) as u32;
    let m_0 = machine.with_local(Name::Base, word(base));
    lines::lemma_base_up_line(x, y);
    lines::lemma_base_down_line(x, y);
    lemma_words(base, offset);
    lemma_nothing(base);
    assert(base_line(up, x, y).run(machine) == with_base(machine, base, oa)) by {
        broadcast use group_running;

    }
    lemma_grown_none(out, machine);
    lemma_line_grown(
        out,
        out,
        machine,
        machine,
        base_line(up, x, y),
        "    { uint32_t base = {}, oa = base {} {};"@,
        seq![x.text(), lower::sign_text(up), y.text()],
    );
}

proof fn lemma_nothing(x: u32)
    ensures
        Operator::Plus.apply(word(x), small(0)) == word(x),
        Operator::Minus.apply(word(x), small(0)) == word(x),
{
    reveal(Operator::apply);
}

/// the variable that holds where a transfer is.
spec fn place_name(pre: bool) -> Expression {
    Expression::Local(
        if pre {
            Name::Oa
        } else {
            Name::Base
        },
    )
}

proof fn lemma_place_name(pre: bool, m: Machine, base: u32, oa: u32)
    requires
        has_base(m, base, oa),
    ensures
        place_name(pre).text() == (if pre {
            "oa"@
        } else {
            "base"@
        }),
        place_name(pre).grouped(),
        place_name(pre).strength() == 16,
        place_name(pre).eval(m) == word(
            if pre {
                oa
            } else {
                base
            },
        ),
{
    reveal_with_fuel(Expression::text, 2);
    reveal_with_fuel(Expression::grouped, 2);
    broadcast use group_running;

}

spec fn backed_text(text: Seq<char>, back: bool, rn: u32) -> Seq<char> {
    if back {
        text::emitted(text, "    ctx->r[{}] = oa;"@, seq![text::dec(rn as nat)])
    } else {
        text
    }
}

/// the base is written back where it has to.
proof fn lemma_backed(
    out: Seq<char>,
    text: Seq<char>,
    before: Machine,
    middle: Machine,
    back: bool,
    rn: u32,
    oa: u32,
)
    requires
        grown(out, text, before, middle),
        middle.locals[Name::Oa] == word(oa),
    ensures
        grown(
            out,
            backed_text(text, back, rn),
            before,
            if back {
                middle.with_register(rn as int, oa)
            } else {
                middle
            },
        ),
{
    if back {
        lines::lemma_back_line(rn as nat);
        assert(lines::back_line(rn as nat).run(middle) == middle.with_register(rn as int, oa)) by {
            broadcast use group_running;

        }
        lemma_line_grown(
            out,
            text,
            before,
            middle,
            lines::back_line(rn as nat),
            "    ctx->r[{}] = oa;"@,
            seq![text::dec(rn as nat)],
        );
    }
}

proof fn lemma_loaded_value(m: Machine, bits: nat, x: Expression, address: u32)
    requires
        bits == 8 || bits == 32,
        x.eval(m) == word(address),
    ensures
        bits == 8 ==> lines::read_8_line(x).run(m) == m.with_local(
            Name::V,
            word(taken(m, 8, false, address)),
        ),
        bits == 32 ==> lines::read_32_line(x).run(m) == m.with_local(
            Name::V,
            word(taken(m, 32, false, address)),
        ),
{
    broadcast use group_running;

}

/// the end of a load.
proof fn lemma_load_end(
    out: Seq<char>,
    text: Seq<char>,
    before: Machine,
    middle: Machine,
    rd: u32,
    pop: bool,
    value: u32,
)
    requires
        grown(out, text, before, middle),
        middle.locals[Name::V] == word(value),
    ensures
        grown(
            out,
            if rd == 15 {
                if pop {
                    text::emitted(text, "    RETURN_TO(v); }"@, Seq::empty())
                } else {
                    text::emitted(text, "    JUMP_TO(v); }"@, Seq::empty())
                }
            } else {
                text::emitted(text, "    ctx->r[{}] = v; }"@, seq![text::dec(rd as nat)])
            },
            before,
            if rd == 15 {
                middle.leaving(Exit::To { address: value as int, returns: pop })
            } else {
                middle.with_register(rd as int, value)
            },
        ),
{
    if rd == 15 {
        let line = if pop {
            lines::return_line()
        } else {
            lines::jump_line()
        };
        let template = if pop {
            "    RETURN_TO(v); }"@
        } else {
            "    JUMP_TO(v); }"@
        };
        lines::lemma_return_line();
        lines::lemma_jump_line();
        assert(line.run(middle) == middle.leaving(
            Exit::To { address: value as int, returns: pop },
        )) by {
            broadcast use group_running;

        }
        lemma_line_grown(out, text, before, middle, line, template, Seq::empty());
    } else {
        let line = lines::result_line(rd as nat);
        lines::lemma_result_line(rd as nat);
        assert(line.run(middle) == middle.with_register(rd as int, value)) by {
            broadcast use group_running;

        }
        lemma_line_grown(
            out,
            text,
            before,
            middle,
            line,
            "    ctx->r[{}] = v; }"@,
            seq![text::dec(rd as nat)],
        );
    }
}

/// ldr, str, ldrb and strb, with an offset of 12 bits or a shifted register. a
/// store of r15 stores the address of the instruction after the next two.
pub proof fn law_single_transfers(
    out: Seq<char>,
    scope: Names,
    address: u32,
    op: u32,
    machine: Machine,
)
    requires
        condition(op) == 14,
        kind(op) == 2 || kind(op) == 3 && !flag(op, 4),
        four(op, 16) == 15 ==> flag(op, 24) && !flag(op, 21),
        sound(machine),
    ensures
        ({
            let code = lower::lower_code(out, scope, address, op);
            let module = scope.module is Some;
            let t = single(machine, module, address, op);
            &&& code.on == !(t.load && t.rd == 15)
            &&& does(out, code.text, machine, transferred(machine, module, address, 12, t))
        }),
{
    lemma_arm_fields(op);
    let module = scope.module is Some;
    let t = single(machine, module, address, op);
    let pc = address.wrapping_add(8);
    let base = read(machine, module, t.rn, pc);
    let oa = t.moved(base);
    let x = source(scope, t.rn, pc);
    let y = single_offset(scope, address, op);
    lemma_source(scope, t.rn, pc, machine);
    lemma_single_offset(machine, scope, address, op, base);
    lemma_opened(out, machine, t.up, x, y, base, t.offset);
    let m_1 = with_base(machine, base, oa);
    let text_1 = text::emitted(
        out,
        "    { uint32_t base = {}, oa = base {} {};"@,
        seq![x.text(), lower::sign_text(t.up), y.text()],
    );
    let pop = t.rn == 13 && !t.pre && t.up && !flag(op, 25) && op % 0x1000 == 4;
    if t.load {
        lemma_load(out, text_1, machine, m_1, t, base, pop);
    } else {
        lemma_store(out, text_1, machine, m_1, scope, address, t, base);
    }
}

/// the offset is written as it is and comes to its distance.
proof fn lemma_single_offset(machine: Machine, scope: Names, address: u32, op: u32, base: u32)
    requires
        sound(machine),
    ensures
        ({
            let y = single_offset(scope, address, op);
            &&& y.grouped()
            &&& y.strength() >= 15
            &&& y.text() == if flag(op, 25) {
                lower::offset_text(
                    scope.reg(op % 16, address.wrapping_add(8)),
                    (op >> 5) % 4,
                    (op >> 7) % 32,
                )
            } else {
                text::fill("0x{}u"@, seq![text::hex((op % 0x1000) as nat)])
            }
            &&& is_word(
                y.eval(machine.with_local(Name::Base, word(base))),
                single_distance(machine, scope.module is Some, address, op),
            )
        }),
{
    let pc = address.wrapping_add(8);
    let m_0 = machine.with_local(Name::Base, word(base));
    if flag(op, 25) {
        let z = source(scope, op % 16, pc);
        lemma_source(scope, op % 16, pc, m_0);
        lemma_register_offset_text(z, (op >> 5) % 4, (op >> 7) % 32);
        lemma_register_offset_evals(
            m_0,
            z,
            read(machine, scope.module is Some, op % 16, pc),
            (op >> 5) % 4,
            (op >> 7) % 32,
        );
    } else {
        lines::lemma_plain_offset((op % 0x1000) as nat);
        broadcast use group_running;

    }
}

spec fn load_text(text: Seq<char>, t: Transfer, pop: bool) -> Seq<char> {
    let place = if t.pre {
        "oa"@
    } else {
        "base"@
    };
    let read = if t.bits == 8 {
        text::emitted(text, "    uint32_t v = mem_read8(ctx, {});"@, seq![place])
    } else {
        text::emitted(text, "    uint32_t v = mem_read32(ctx, {});"@, seq![place])
    };
    let back = backed_text(read, t.back, t.rn);
    if t.rd == 15 {
        if pop {
            text::emitted(back, "    RETURN_TO(v); }"@, Seq::empty())
        } else {
            text::emitted(back, "    JUMP_TO(v); }"@, Seq::empty())
        }
    } else {
        text::emitted(back, "    ctx->r[{}] = v; }"@, seq![text::dec(t.rd as nat)])
    }
}

proof fn lemma_load(
    out: Seq<char>,
    text: Seq<char>,
    machine: Machine,
    m_1: Machine,
    t: Transfer,
    base: u32,
    pop: bool,
)
    requires
        grown(out, text, machine, m_1),
        m_1 == with_base(machine, base, t.moved(base)),
        t.bits == 8 || t.bits == 32,
        !t.signed,
    ensures
        does(
            out,
            load_text(text, t, pop),
            machine,
            ({
                let value = taken(machine, t.bits, false, t.place(base));
                let moved = t.backed(machine, base);
                if t.rd == 15 {
                    moved.leaving(Exit::To { address: value as int, returns: pop })
                } else {
                    moved.with_register(t.rd as int, value)
                }
            }),
        ),
{
    let oa = t.moved(base);
    let place = t.place(base);
    let value = taken(machine, t.bits, false, place);
    let z = place_name(t.pre);
    lemma_place_name(t.pre, m_1, base, oa);
    assert(taken(m_1, t.bits, false, place) == value);
    lemma_loaded_value(m_1, t.bits, z, place);
    let m_2 = m_1.with_local(Name::V, word(value));
    let line = if t.bits == 8 {
        lines::read_8_line(z)
    } else {
        lines::read_32_line(z)
    };
    let template = if t.bits == 8 {
        "    uint32_t v = mem_read8(ctx, {});"@
    } else {
        "    uint32_t v = mem_read32(ctx, {});"@
    };
    lines::lemma_read_8_line(z);
    lines::lemma_read_32_line(z);
    lemma_line_grown(out, text, machine, m_1, line, template, seq![z.text()]);
    let text_2 = text::emitted(text, template, seq![z.text()]);
    lemma_backed(out, text_2, machine, m_2, t.back, t.rn, oa);
    let text_3 = backed_text(text_2, t.back, t.rn);
    let m_3 = if t.back {
        m_2.with_register(t.rn as int, oa)
    } else {
        m_2
    };
    lemma_load_end(out, text_3, machine, m_3, t.rd, pop, value);
    let end = if t.rd == 15 {
        m_3.leaving(Exit::To { address: value as int, returns: pop })
    } else {
        m_3.with_register(t.rd as int, value)
    };
    let moved = t.backed(machine, base);
    let after = if t.rd == 15 {
        moved.leaving(Exit::To { address: value as int, returns: pop })
    } else {
        moved.with_register(t.rd as int, value)
    };
    lemma_grown_does(out, load_text(text, t, pop), machine, end, after);
}

spec fn store_text(text: Seq<char>, scope: Names, address: u32, t: Transfer) -> Seq<char> {
    let place = if t.pre {
        "oa"@
    } else {
        "base"@
    };
    let value = scope.reg(t.rd, address.wrapping_add(12));
    let stored = if t.bits == 8 {
        text::emitted(text, "    mem_write8(ctx, {}, (uint8_t){});"@, seq![place, value])
    } else {
        text::emitted(text, "    mem_write32(ctx, {}, {});"@, seq![place, value])
    };
    text::emitted(backed_text(stored, t.back, t.rn), "    }"@, Seq::empty())
}

proof fn lemma_stored_value(m: Machine, bits: nat, x: Expression, y: Expression, address: u32, value: u32)
    requires
        bits == 8 || bits == 32,
        x.eval(m) == word(address),
        y.eval(m) == word(value),
    ensures
        bits == 8 ==> lines::write_8_line(x, y).run(m) == m.given(8, address, value),
        bits == 32 ==> lines::write_32_line(x, y).run(m) == m.given(32, address, value),
{
    broadcast use group_running;

}

proof fn lemma_store(
    out: Seq<char>,
    text: Seq<char>,
    machine: Machine,
    m_1: Machine,
    scope: Names,
    address: u32,
    t: Transfer,
    base: u32,
)
    requires
        grown(out, text, machine, m_1),
        m_1 == with_base(machine, base, t.moved(base)),
        t.bits == 8 || t.bits == 32,
        t.rd <= 15,
    ensures
        does(
            out,
            store_text(text, scope, address, t),
            machine,
            t.backed(
                machine.given(
                    t.bits,
                    t.place(base),
                    read(machine, scope.module is Some, t.rd, address.wrapping_add(12)),
                ),
                base,
            ),
        ),
{
    let oa = t.moved(base);
    let place = t.place(base);
    let pc = address.wrapping_add(12);
    let value = read(machine, scope.module is Some, t.rd, pc);
    let x = place_name(t.pre);
    let y = source(scope, t.rd, pc);
    lemma_place_name(t.pre, m_1, base, oa);
    lemma_source(scope, t.rd, pc, m_1);
    lemma_stored_value(m_1, t.bits, x, y, place, value);
    let line = if t.bits == 8 {
        lines::write_8_line(x, y)
    } else {
        lines::write_32_line(x, y)
    };
    let template = if t.bits == 8 {
        "    mem_write8(ctx, {}, (uint8_t){});"@
    } else {
        "    mem_write32(ctx, {}, {});"@
    };
    lines::lemma_write_8_line(x, y);
    lines::lemma_write_32_line(x, y);
    lemma_line_grown(out, text, machine, m_1, line, template, seq![x.text(), y.text()]);
    let text_2 = text::emitted(text, template, seq![x.text(), y.text()]);
    let m_2 = m_1.given(t.bits, place, value);
    lemma_backed(out, text_2, machine, m_2, t.back, t.rn, oa);
    let text_3 = backed_text(text_2, t.back, t.rn);
    let m_3 = if t.back {
        m_2.with_register(t.rn as int, oa)
    } else {
        m_2
    };
    common::lemma_close_line();
    assert(common::close_line().run(m_3) == m_3) by {
        broadcast use group_steps;

    }
    lemma_line_grown(out, text_3, machine, m_3, common::close_line(), "    }"@, Seq::empty());
    let stored = machine.given(t.bits, place, value);
    assert(m_2.memory == stored.memory);
    lemma_grown_does(
        out,
        store_text(text, scope, address, t),
        machine,
        m_3,
        t.backed(stored, base),
    );
}

} // verus!
