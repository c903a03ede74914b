//! what the C for Thumb loads and stores does.

use crate::codegen::architecture::{sound, taken};
use crate::codegen::operands::{lemma_place, place};
use crate::codegen::running::{lemma_words, word};
use crate::codegen::small_c::{
    does, group_running, group_steps, lemma_eval_cast, lemma_eval_load, lemma_line_does,
    lemma_run_assign, Expression, Layout, Machine, Place, Program, Statement, Type,
};
use crate::codegen::thumb as lower;
use crate::codegen::thumb_lines as lines;
use crate::codegen::thumb_meaning::lemma_fields;
use crate::codegen::Names;
use crate::text;
use crate::thumb::laws::lemma_word_start;
use vstd::prelude::*;

verus! {

/// the C function that reads so many bits.
spec fn read_text(bits: nat, signed: bool) -> Seq<char> {
    if bits == 32 {
        "mem_read32"@
    } else if bits == 16 {
        if signed {
            "(uint32_t)(int32_t)(int16_t)mem_read16"@
        } else {
            "mem_read16"@
        }
    } else if signed {
        "(uint32_t)(int32_t)(int8_t)mem_read8"@
    } else {
        "mem_read8"@
    }
}

spec fn load_line(bits: nat, signed: bool, rd: nat, x: Expression) -> Program {
    if bits == 32 {
        lines::load_word_line(rd, x)
    } else if bits == 16 {
        if signed {
            lines::load_signed_half_line(rd, x)
        } else {
            lines::load_half_line(rd, x)
        }
    } else if signed {
        lines::load_signed_byte_line(rd, x)
    } else {
        lines::load_byte_line(rd, x)
    }
}

proof fn lemma_load_run(
    machine: Machine,
    bits: nat,
    signed: bool,
    rd: nat,
    x: Expression,
    address: u32,
)
    requires
        bits == 8 || bits == 16 || bits == 32,
        bits == 32 ==> !signed,
        x.eval(machine) == word(address),
    ensures
        load_line(bits, signed, rd, x).run(machine) == machine.with_register(
            rd as int,
            taken(machine, bits, signed, address),
        ),
{
    broadcast use group_steps;

    let value = load_expression(bits, signed, x);
    lemma_load_evals(machine, bits, signed, x, address);
    lemma_run_assign(Place::Register(rd), value, machine);
    assert(load_line(bits, signed, rd, x) == Program::Then(
        Layout::Alone,
        Statement::Assign(Place::Register(rd), value),
        Box::new(Program::End),
    ));
}

spec fn load_expression(bits: nat, signed: bool, x: Expression) -> Expression {
    let loaded = Box::new(Expression::Load(bits, Box::new(x)));
    if signed {
        let narrow = if bits == 8 {
            Type::I8
        } else {
            Type::I16
        };
        Expression::Cast(
            Type::U32,
            Box::new(Expression::Cast(Type::I32, Box::new(Expression::Cast(narrow, loaded)))),
        )
    } else {
        *loaded
    }
}

proof fn lemma_load_evals(machine: Machine, bits: nat, signed: bool, x: Expression, address: u32)
    requires
        bits == 8 || bits == 16 || bits == 32,
        bits == 32 ==> !signed,
        x.eval(machine) == word(address),
    ensures
        load_expression(bits, signed, x).eval(machine).number == taken(
            machine,
            bits,
            signed,
            address,
        ),
{
    let loaded = Box::new(Expression::Load(bits, Box::new(x)));
    lemma_eval_load(bits, Box::new(x), machine);
    assert(loaded.eval(machine).number == machine.load(bits, address));
    if signed {
        let narrow = if bits == 8 {
            Type::I8
        } else {
            Type::I16
        };
        let part = Box::new(Expression::Cast(narrow, loaded));
        let whole = Box::new(Expression::Cast(Type::I32, part));
        lemma_eval_cast(narrow, loaded, machine);
        lemma_eval_cast(Type::I32, part, machine);
        lemma_eval_cast(Type::U32, whole, machine);
        lemma_widened(bits, machine.load(bits, address));
    }
}

proof fn lemma_widened(bits: nat, number: int)
    requires
        bits == 8 && 0 <= number < 0x100 || bits == 16 && 0 <= number < 0x1_0000,
    ensures
        bits == 8 ==> Type::U32.holds(Type::I32.holds(Type::I8.holds(number))) == (if number
            >= 0x80 {
            number + 0xFFFF_FF00
        } else {
            number
        }),
        bits == 16 ==> Type::U32.holds(Type::I32.holds(Type::I16.holds(number))) == (if number
            >= 0x8000 {
            number + 0xFFFF_0000
        } else {
            number
        }),
{
}

proof fn lemma_loads(
    out: Seq<char>,
    machine: Machine,
    bits: nat,
    signed: bool,
    rd: u32,
    x: Expression,
    address: u32,
)
    requires
        bits == 8 || bits == 16 || bits == 32,
        bits == 32 ==> !signed,
        x.grouped(),
        x.eval(machine) == word(address),
    ensures
        does(
            out,
            lower::loaded(out, rd, read_text(bits, signed), x.text()).text,
            machine,
            machine.with_register(rd as int, taken(machine, bits, signed, address)),
        ),
{
    let n = rd as nat;
    lemma_load_run(machine, bits, signed, n, x, address);
    if bits == 32 {
        lines::lemma_load_word_line(n, x);
    } else if bits == 16 {
        if signed {
            lines::lemma_load_signed_half_line(n, x);
        } else {
            lines::lemma_load_half_line(n, x);
        }
    } else if signed {
        lines::lemma_load_signed_byte_line(n, x);
    } else {
        lines::lemma_load_byte_line(n, x);
    }
    lemma_line_does(
        out,
        "    ctx->r[{}] = {}(ctx, {});"@,
        seq![text::dec(n), read_text(bits, signed), x.text()],
        load_line(bits, signed, n, x),
        machine,
        machine.with_register(rd as int, taken(machine, bits, signed, address)),
    );
}

/// the C function that writes so many bits.
spec fn write_text(bits: nat) -> Seq<char> {
    if bits == 32 {
        "mem_write32"@
    } else if bits == 16 {
        "mem_write16"@
    } else {
        "mem_write8"@
    }
}

spec fn cast_text(bits: nat) -> Seq<char> {
    if bits == 32 {
        ""@
    } else if bits == 16 {
        "(uint16_t)"@
    } else {
        "(uint8_t)"@
    }
}

spec fn store_line(bits: nat, rd: nat, x: Expression) -> Program {
    if bits == 32 {
        lines::store_word_line(rd, x)
    } else if bits == 16 {
        lines::store_half_line(rd, x)
    } else {
        lines::store_byte_line(rd, x)
    }
}

proof fn lemma_store_run(machine: Machine, bits: nat, rd: nat, x: Expression, address: u32)
    requires
        bits == 8 || bits == 16 || bits == 32,
        x.eval(machine) == word(address),
    ensures
        store_line(bits, rd, x).run(machine) == machine.given(
            bits,
            address,
            machine.r[rd as int],
        ),
{
    broadcast use group_running;

}

proof fn lemma_stores(
    out: Seq<char>,
    machine: Machine,
    bits: nat,
    rd: u32,
    x: Expression,
    address: u32,
)
    requires
        bits == 8 || bits == 16 || bits == 32,
        x.grouped(),
        x.eval(machine) == word(address),
    ensures
        does(
            out,
            lower::stored(out, rd, write_text(bits), x.text(), cast_text(bits)).text,
            machine,
            machine.given(bits, address, machine.r[rd as int]),
        ),
{
    let n = rd as nat;
    lemma_store_run(machine, bits, n, x, address);
    if bits == 32 {
        lines::lemma_store_word_line(n, x);
    } else if bits == 16 {
        lines::lemma_store_half_line(n, x);
    } else {
        lines::lemma_store_byte_line(n, x);
    }
    lemma_line_does(
        out,
        "    {}(ctx, {}, {}ctx->r[{}]);"@,
        seq![write_text(bits), x.text(), cast_text(bits), text::dec(n)],
        store_line(bits, n, x),
        machine,
        machine.given(bits, address, machine.r[rd as int]),
    );
}

/// loads and stores at the sum of two registers: str, strh, strb, ldrsb, ldr,
/// ldrh, ldrb and ldrsh, in the order of their numbers.
pub proof fn law_register_offsets(
    out: Seq<char>,
    scope: Names,
    address: u32,
    op: u32,
    second: u32,
    machine: Machine,
)
    requires
        0x5000 <= op < 0x6000,
        sound(machine),
    ensures
        ({
            let code = lower::lower_code(out, scope, address, op, second);
            let kind = op / 0x200 % 8;
            let rd = (op % 8) as int;
            let place = ((machine.r[(op / 8 % 8) as int] + machine.r[(op / 0x40 % 8) as int])
                % 0x1_0000_0000) as u32;
            let bits: nat = if kind == 0 || kind == 4 {
                32
            } else if kind == 1 || kind == 5 || kind == 7 {
                16
            } else {
                8
            };
            code.on && does(
                out,
                code.text,
                machine,
                if kind < 3 {
                    machine.given(bits, place, machine.r[rd])
                } else {
                    machine.with_register(
                        rd,
                        taken(machine, bits, kind == 3 || kind == 7, place),
                    )
                },
            )
        }),
{
    let rb = (op / 8 % 8) as nat;
    let ro = (op / 0x40 % 8) as nat;
    let x = lines::sum_expression(rb, ro);
    let kind = op / 0x200 % 8;
    let rd = op % 8;
    let place = ((machine.r[rb as int] + machine.r[ro as int]) % 0x1_0000_0000) as u32;
    lemma_register_offset_text(out, scope, address, op, second);
    lines::lemma_sum_expression(rb, ro);
    assert(x.eval(machine) == word(place)) by {
        broadcast use group_running;

        lemma_words(machine.r[rb as int], machine.r[ro as int]);
    }
    let bits = width(kind);
    if kind < 3 {
        lemma_stores(out, machine, bits, rd, x, place);
    } else {
        lemma_loads(out, machine, bits, kind == 3 || kind == 7, rd, x, place);
    }
}

/// how many bits a load or store at the sum of two registers moves.
spec fn width(kind: u32) -> nat {
    if kind == 0 || kind == 4 {
        32
    } else if kind == 1 || kind == 5 || kind == 7 {
        16
    } else {
        8
    }
}

proof fn lemma_register_offset_text(
    out: Seq<char>,
    scope: Names,
    address: u32,
    op: u32,
    second: u32,
)
    requires
        0x5000 <= op < 0x6000,
    ensures
        ({
            let code = lower::lower_code(out, scope, address, op, second);
            let kind = op / 0x200 % 8;
            let bits = width(kind);
            let place = text::fill(
                "ctx->r[{}] + ctx->r[{}]"@,
                seq![text::dec((op / 8 % 8) as nat), text::dec((op / 0x40 % 8) as nat)],
            );
            code == if kind < 3 {
                lower::stored(out, op % 8, write_text(bits), place, cast_text(bits))
            } else {
                lower::loaded(out, op % 8, read_text(bits, kind == 3 || kind == 7), place)
            }
        }),
{
    lemma_fields(op);
    let kind = op / 0x200 % 8;
    lemma_register_offset_code(out, scope, address, op, second);
    let high = op / 0x400 % 4;
    let low = op / 0x200 % 2;
    assert(kind == 2 * high + low && high < 4 && low < 2);
}

proof fn lemma_register_offset_code(
    out: Seq<char>,
    scope: Names,
    address: u32,
    op: u32,
    second: u32,
)
    requires
        0x5000 <= op < 0x6000,
    ensures
        lower::lower_code(out, scope, address, op, second) == lower::register_offset_code(out, op),
{
    lemma_fields(op);
}

proof fn lemma_offset(machine: Machine, rb: nat, distance: nat)
    requires
        distance < 0x1_0000,
        rb < 16,
    ensures
        lines::offset_expression(rb, distance).text() == lower::offset_text(rb as u32, distance),
        lines::offset_expression(rb, distance).grouped(),
        lines::offset_expression(rb, distance).eval(machine) == word(
            ((machine.r[rb as int] + distance) % 0x1_0000_0000) as u32,
        ),
{
    broadcast use group_running;

    lines::lemma_offset_expression(rb, distance);
    lemma_words(machine.r[rb as int], distance as u32);
}

/// loads and stores at a register plus an immediate, counted in what is moved:
/// str, ldr, strb and ldrb, then strh and ldrh, in the order of their numbers.
pub proof fn law_immediate_offsets(
    out: Seq<char>,
    scope: Names,
    address: u32,
    op: u32,
    second: u32,
    machine: Machine,
)
    requires
        0x6000 <= op < 0x9000,
        sound(machine),
    ensures
        ({
            let code = lower::lower_code(out, scope, address, op, second);
            let kind = op / 0x1000;
            let rd = (op % 8) as int;
            let bits: nat = if kind == 6 {
                32
            } else if kind == 7 {
                8
            } else {
                16
            };
            let distance = op / 0x40 % 32 * bits / 8;
            let place = ((machine.r[(op / 8 % 8) as int] + distance) % 0x1_0000_0000) as u32;
            code.on && does(
                out,
                code.text,
                machine,
                if op / 0x800 % 2 == 0 {
                    machine.given(bits, place, machine.r[rd])
                } else {
                    machine.with_register(rd, taken(machine, bits, false, place))
                },
            )
        }),
{
    lemma_fields(op);
    let rb = (op / 8 % 8) as nat;
    let rd = op % 8;
    let kind = op / 0x1000;
    let field = (op / 0x40 % 32) as nat;
    let load = op / 0x800 % 2 == 1;
    let bits: nat = if kind == 6 {
        32
    } else if kind == 7 {
        8
    } else {
        16
    };
    let distance = (field * bits / 8) as nat;
    assert(kind == 6 ==> distance == field * 4);
    assert(kind == 7 ==> distance == field);
    assert(kind == 8 ==> distance == field * 2);
    let place = ((machine.r[rb as int] + distance) % 0x1_0000_0000) as u32;
    let x = lines::offset_expression(rb, distance);
    lemma_offset(machine, rb, distance);
    if load {
        lemma_loads(out, machine, bits, false, rd, x, place);
    } else {
        lemma_stores(out, machine, bits, rd, x, place);
    }
}

/// str and ldr of a word so many words past sp.
pub proof fn law_stack_offsets(
    out: Seq<char>,
    scope: Names,
    address: u32,
    op: u32,
    second: u32,
    machine: Machine,
)
    requires
        0x9000 <= op < 0xA000,
        sound(machine),
    ensures
        ({
            let code = lower::lower_code(out, scope, address, op, second);
            let rd = (op / 0x100 % 8) as int;
            let place = ((machine.r[13] + 4 * (op % 0x100)) % 0x1_0000_0000) as u32;
            code.on && does(
                out,
                code.text,
                machine,
                if op / 0x800 % 2 == 0 {
                    machine.given(32, place, machine.r[rd])
                } else {
                    machine.with_register(rd, taken(machine, 32, false, place))
                },
            )
        }),
{
    lemma_fields(op);
    let rd = op / 0x100 % 8;
    let distance = (op % 0x100 * 4) as nat;
    let place = ((machine.r[13] + distance) % 0x1_0000_0000) as u32;
    let x = lines::offset_expression(13, distance);
    lemma_offset(machine, 13, distance);
    if op / 0x800 % 2 == 1 {
        lemma_loads(out, machine, 32, false, rd, x, place);
    } else {
        lemma_stores(out, machine, 32, rd, x, place);
    }
}

/// ldr of a word so many words past pc, which is two instructions ahead and
/// counted from the start of its word.
pub proof fn law_literals(
    out: Seq<char>,
    scope: Names,
    address: u32,
    op: u32,
    second: u32,
    machine: Machine,
)
    requires
        0x4800 <= op < 0x5000,
        sound(machine),
    ensures
        ({
            let code = lower::lower_code(out, scope, address, op, second);
            let rd = (op / 0x100 % 8) as int;
            let pc = (address + 4) % 0x1_0000_0000;
            let literal = pc - pc % 4 + 4 * (op % 0x100);
            let place = ((literal + if scope.module is Some {
                machine.module as int
            } else {
                0
            }) % 0x1_0000_0000) as u32;
            code.on && does(
                out,
                code.text,
                machine,
                machine.with_register(rd, taken(machine, 32, false, place)),
            )
        }),
{
    let literal = lower::literal_of(address, op);
    let base = if scope.module is Some {
        machine.module as int
    } else {
        0
    };
    let place = ((literal + base) % 0x1_0000_0000) as u32;
    lemma_literal_place(address, op, base);
    lemma_place(scope, literal, machine);
    lemma_loads(out, machine, 32, false, op / 0x100 % 8, self::place(scope, literal), place);
    lemma_literal_text(out, scope, address, op, second);
}

/// where a literal is, past where the module is loaded.
pub proof fn lemma_literal_place(address: u32, op: u32, base: int)
    requires
        op <= 0xFFFF,
        0 <= base <= u32::MAX,
    ensures
        ({
            let pc = (address + 4) % 0x1_0000_0000;
            (lower::literal_of(address, op) + base) % 0x1_0000_0000 == (pc - pc % 4 + 4 * (op
                % 0x100) + base) % 0x1_0000_0000
        }),
{
    lemma_literal(address, op);
    let pc = (address + 4) % 0x1_0000_0000;
    let far = pc - pc % 4 + 4 * (op % 0x100);
    if far >= 0x1_0000_0000 {
        assert(far % 0x1_0000_0000 == far - 0x1_0000_0000);
    }
}

proof fn lemma_literal_text(out: Seq<char>, scope: Names, address: u32, op: u32, second: u32)
    requires
        0x4800 <= op < 0x5000,
    ensures
        lower::lower_code(out, scope, address, op, second) == lower::loaded(
            out,
            op / 0x100 % 8,
            "mem_read32"@,
            scope.at(lower::literal_of(address, op)),
        ),
{
    lemma_fields(op);
}

/// where the literals of an instruction are counted from.
pub proof fn lemma_literal(address: u32, op: u32)
    requires
        op <= 0xFFFF,
    ensures
        ({
            let pc = (address + 4) % 0x1_0000_0000;
            lower::literal_of(address, op) == (pc - pc % 4 + 4 * (op % 0x100)) % 0x1_0000_0000
        }),
{
    lemma_fields(op);
    lemma_word_start(address.wrapping_add(4));
}

} // verus!
