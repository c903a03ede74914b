//! what the C for branches and calls does.

use crate::arm;
use crate::arm::laws::{condition, distance, flag, kind};
use crate::codegen;
use crate::codegen::architecture::{read, sound};
use crate::codegen::arm as lower;
use crate::codegen::branch_lines as lines;
use crate::codegen::operands::{lemma_place, place};
use crate::codegen::running::word;
use crate::codegen::small_c::{
    does, group_running, grown, lemma_grown_does, lemma_grown_none, lemma_hole, lemma_line_does,
    lemma_line_grown, lemma_plain, Event, Exit, Field, Machine, Name, Routine,
};
use crate::codegen::thumb as thumb_lower;
use crate::codegen::vfp;
use crate::codegen::Names;
use crate::text;
use vstd::prelude::*;

verus! {

/// where an address of the program is when it runs.
pub open spec fn placed(machine: Machine, scope: Names, address: u32) -> u32 {
    read(machine, scope.module is Some, 15, address)
}

/// the code at target was written as a function, which are kept by their address
/// with bit 0 set for Thumb.
pub open spec fn written(scope: Names, target: u32, thumb: bool) -> bool {
    scope.functions.contains(
        if thumb && target % 2 == 0 {
            (target + 1) as u32
        } else {
            target
        },
    )
}

/// the function that runs the code at target.
pub open spec fn routine(scope: Names, target: u32, thumb: bool) -> Routine {
    if written(scope, target, thumb) {
        Routine::Written { module: scope.module, address: target, thumb }
    } else {
        Routine::Any
    }
}

/// the machine once it has gone to target.
pub open spec fn jumped(machine: Machine, scope: Names, target: u32, thumb: bool) -> Machine {
    let there = placed(machine, scope, target);
    if scope.labels.contains(target) {
        machine.leaving(Exit::Label { label: target })
    } else if written(scope, target, thumb) {
        machine.with_register(15, there).starting(routine(scope, target, thumb)).leaving(Exit::Back)
    } else {
        machine.leaving(Exit::Dispatch { target: there as int })
    }
}

/// the machine once it has called target from code that goes on at next.
pub open spec fn called(
    machine: Machine,
    scope: Names,
    next: u32,
    from_thumb: bool,
    target: u32,
    thumb: bool,
) -> Machine {
    let link = if from_thumb {
        (next + 1) as u32
    } else {
        next
    };
    machine.with_register(14, placed(machine, scope, link)).with_register(
        15,
        placed(machine, scope, target),
    ).with_field(
        Field::Thumb,
        if thumb {
            1
        } else {
            0
        },
    ).starting(routine(scope, target, thumb)).seeing(
        Event::Comes { back: placed(machine, scope, next) as int, thumb: from_thumb },
    )
}

/// the lowest bit of an address.
pub proof fn lemma_key_bits(address: u32)
    by (bit_vector)
    ensures
        address | 1 == (if address % 2 == 0 {
            (address + 1) as u32
        } else {
            address
        }),
        address & 1 == address % 2,
        address & !1 == address - address % 2,
{
}

proof fn lemma_routine(scope: Names, target: u32, thumb: bool)
    ensures
        written(scope, target, thumb) == scope.knows(target, thumb),
        written(scope, target, thumb) ==> routine(scope, target, thumb).text() == scope.name(
            target,
            thumb,
        ),
{
    lemma_key_bits(target);
    let kind = if thumb {
        "t"@
    } else {
        "f"@
    };
    let whole = text::hex_wide(target as nat, 8);
    reveal_strlit("t");
    reveal_strlit("f");
    reveal_strlit("t_");
    reveal_strlit("f_");
    reveal_strlit("m");
    reveal_strlit("_");
    reveal_strlit("");
    reveal_strlit("{}");
    reveal_strlit("{}_{}");
    reveal_strlit("m{}_{}");
    assert("{}_{}"@ =~= ""@ + "{}"@ + ("_"@ + "{}"@ + ""@));
    assert("m{}_{}"@ =~= "m"@ + "{}"@ + ("_"@ + "{}"@ + ""@));
    lemma_plain(""@);
    let args = seq![kind, whole];
    assert(args.skip(1) =~= seq![whole]);
    assert(seq![whole].skip(1) =~= Seq::<Seq<char>>::empty());
    lemma_hole(""@, "_"@ + "{}"@ + ""@, args);
    lemma_hole("_"@, ""@, seq![whole]);
    let plain = text::fill("{}_{}"@, args);
    let own = if thumb {
        "t_"@
    } else {
        "f_"@
    } + whole;
    assert(plain =~= own);
    if let Some(number) = scope.module {
        let wide = codegen::number_wide(number as nat);
        let more = seq![wide, plain];
        assert(more.skip(1) =~= seq![plain]);
        assert(seq![plain].skip(1) =~= Seq::<Seq<char>>::empty());
        lemma_hole("m"@, "_"@ + "{}"@ + ""@, more);
        lemma_hole("_"@, ""@, seq![plain]);
        assert(text::fill("m{}_{}"@, more) =~= "m"@ + wide + "_"@ + own);
    }
}

/// a jump goes to the label of its target, or to the function that starts there,
/// or else to wherever the code for it is looked up.
pub proof fn law_jumps(out: Seq<char>, scope: Names, target: u32, thumb: bool, machine: Machine)
    ensures
        ({
            let code = codegen::jump_code(out, scope, target, thumb);
            !code.on && does(out, code.text, machine, jumped(machine, scope, target, thumb))
        }),
{
    let there = placed(machine, scope, target);
    let x = place(scope, target);
    lemma_place(scope, target, machine);
    lemma_routine(scope, target, thumb);
    if scope.labels.contains(target) {
        lines::lemma_label_line(target);
        assert(lines::label_line(target).run(machine) == jumped(machine, scope, target, thumb))
            by {
            broadcast use group_running;

        }
        lemma_line_does(
            out,
            "    goto L_{};"@,
            seq![text::hex_wide(target as nat, 8)],
            lines::label_line(target),
            machine,
            jumped(machine, scope, target, thumb),
        );
    } else if scope.knows(target, thumb) {
        let to = routine(scope, target, thumb);
        lines::lemma_tail_line(x, to);
        assert(lines::tail_line(x, to).run(machine) == jumped(machine, scope, target, thumb)) by {
            broadcast use group_running;

        }
        lemma_line_does(
            out,
            "    ctx->r[15] = {}; CALL({}); return;"@,
            seq![x.text(), to.text()],
            lines::tail_line(x, to),
            machine,
            jumped(machine, scope, target, thumb),
        );
    } else {
        lines::lemma_target_line(x);
        assert(lines::target_line(x).run(machine) == machine.with_local(
            Name::Target,
            word(there),
        ).leaving(Exit::Dispatch { target: there as int })) by {
            broadcast use group_running;

        }
        lemma_line_does(
            out,
            "    target = {}; goto dispatch;"@,
            seq![x.text()],
            lines::target_line(x),
            machine,
            jumped(machine, scope, target, thumb),
        );
    }
}

/// a call leaves where the code goes on in lr, as its state has it, runs the
/// target in its own state, and goes on where it came from.
pub proof fn law_calls(
    out: Seq<char>,
    scope: Names,
    next: u32,
    from_thumb: bool,
    target: u32,
    thumb: bool,
    machine: Machine,
)
    requires
        next % 2 == 0,
        sound(machine),
        machine.fields.contains_key(Field::Thumb),
        machine.field(Field::Thumb) == if from_thumb {
            1int
        } else {
            0
        },
    ensures
        ({
            let link = if from_thumb {
                next | 1
            } else {
                next
            };
            let code = codegen::call_code(out, scope, link, target, thumb);
            code.on && does(
                out,
                code.text,
                machine,
                called(machine, scope, next, from_thumb, target, thumb),
            )
        }),
{
    lemma_key_bits(next);
    let link = if from_thumb {
        (next + 1) as u32
    } else {
        next
    };
    lemma_key_bits(link);
    lemma_routine(scope, target, thumb);
    lemma_place(scope, link, machine);
    lemma_place(scope, target, machine.with_register(14, placed(machine, scope, link)));
    let (x, y) = (place(scope, link), place(scope, target));
    lemma_grown_none(out, machine);
    lines::lemma_link_line(x, y);
    lemma_line_grown(
        out,
        out,
        machine,
        machine,
        lines::link_line(x, y),
        "    ctx->r[14] = {}; ctx->r[15] = {};"@,
        seq![scope.at(link), scope.at(target)],
    );
    let text_1 = text::emitted(
        out,
        "    ctx->r[14] = {}; ctx->r[15] = {};"@,
        seq![scope.at(link), scope.at(target)],
    );
    let m_1 = machine.with_register(14, placed(machine, scope, link)).with_register(
        15,
        placed(machine, scope, target),
    );
    assert(lines::link_line(x, y).run(machine) == m_1) by {
        broadcast use group_running;

    }
    let state = if thumb {
        1int
    } else {
        0
    };
    let m_2 = m_1.with_field(Field::Thumb, state);
    lemma_state(out, text_1, machine, m_1, from_thumb, thumb);
    let text_2 = state_text(text_1, from_thumb, thumb);
    let to = routine(scope, target, thumb);
    let m_3 = m_2.starting(to);
    lemma_entered(out, text_2, machine, m_2, scope, target, thumb);
    let text_3 = entered_text(text_2, scope, target, thumb);
    let z = place(scope, next);
    lemma_place(scope, next, m_3);
    lines::lemma_expect_line(z);
    lines::lemma_expect_thumb_line(z);
    let end = m_3.seeing(
        Event::Comes { back: placed(machine, scope, next) as int, thumb: from_thumb },
    );
    if from_thumb {
        assert(lines::expect_thumb_line(z).run(m_3) == end) by {
            broadcast use group_running;

        }
        lemma_line_grown(
            out,
            text_3,
            machine,
            m_3,
            lines::expect_thumb_line(z),
            "    {}({});"@,
            seq!["RETURNED_T"@, z.text()],
        );
    } else {
        assert(lines::expect_line(z).run(m_3) == end) by {
            broadcast use group_running;

        }
        lemma_line_grown(
            out,
            text_3,
            machine,
            m_3,
            lines::expect_line(z),
            "    {}({});"@,
            seq!["RETURNED"@, z.text()],
        );
    }
    let code = codegen::call_code(out, scope, link, target, thumb);
    lemma_grown_does(
        out,
        code.text,
        machine,
        end,
        called(machine, scope, next, from_thumb, target, thumb),
    );
}

spec fn state_text(text: Seq<char>, from_thumb: bool, thumb: bool) -> Seq<char> {
    if thumb == from_thumb {
        text
    } else if thumb {
        text::emitted(text, "    ctx->thumb = 1;"@, Seq::empty())
    } else {
        text::emitted(text, "    ctx->thumb = 0;"@, Seq::empty())
    }
}

/// the state is changed where it has to.
proof fn lemma_state(
    out: Seq<char>,
    text: Seq<char>,
    before: Machine,
    middle: Machine,
    from_thumb: bool,
    thumb: bool,
)
    requires
        grown(out, text, before, middle),
        middle.fields.contains_key(Field::Thumb),
        middle.field(Field::Thumb) == if from_thumb {
            1int
        } else {
            0
        },
    ensures
        grown(
            out,
            state_text(text, from_thumb, thumb),
            before,
            middle.with_field(
                Field::Thumb,
                if thumb {
                    1
                } else {
                    0
                },
            ),
        ),
{
    let state = if thumb {
        1int
    } else {
        0
    };
    let after = middle.with_field(Field::Thumb, state);
    if thumb == from_thumb {
        assert(after.fields =~= middle.fields);
        assert(after == middle);
    } else {
        let line = if thumb {
            lines::thumb_line()
        } else {
            lines::arm_line()
        };
        lines::lemma_thumb_line();
        lines::lemma_arm_line();
        assert(line.run(middle) == after) by {
            broadcast use group_running;

        }
        let template = if thumb {
            "    ctx->thumb = 1;"@
        } else {
            "    ctx->thumb = 0;"@
        };
        lemma_line_grown(out, text, before, middle, line, template, Seq::empty());
    }
}

spec fn entered_text(text: Seq<char>, scope: Names, target: u32, thumb: bool) -> Seq<char> {
    if scope.knows(target, thumb) {
        text::emitted(text, "    CALL({});"@, seq![scope.name(target, thumb)])
    } else {
        text::emitted(text, "    CALL(recomp_call);"@, Seq::empty())
    }
}

proof fn lemma_entered(
    out: Seq<char>,
    text: Seq<char>,
    before: Machine,
    middle: Machine,
    scope: Names,
    target: u32,
    thumb: bool,
)
    requires
        grown(out, text, before, middle),
    ensures
        grown(
            out,
            entered_text(text, scope, target, thumb),
            before,
            middle.starting(routine(scope, target, thumb)),
        ),
{
    let to = routine(scope, target, thumb);
    lemma_routine(scope, target, thumb);
    if scope.knows(target, thumb) {
        lines::lemma_enter_line(to);
        assert(lines::enter_line(to).run(middle) == middle.starting(to)) by {
            broadcast use group_running;

        }
        lemma_line_grown(
            out,
            text,
            before,
            middle,
            lines::enter_line(to),
            "    CALL({});"@,
            seq![to.text()],
        );
    } else {
        lines::lemma_enter_any_line();
        assert(lines::enter_any_line().run(middle) == middle.starting(to)) by {
            broadcast use group_running;

        }
        lemma_line_grown(
            out,
            text,
            before,
            middle,
            lines::enter_any_line(),
            "    CALL(recomp_call);"@,
            Seq::empty(),
        );
    }
}

/// the fields of an ARM instruction.
pub proof fn lemma_arm_fields(op: u32)
    by (bit_vector)
    ensures
        op >> 28 == op / 0x1000_0000,
        (op >> 25) & 7 == op / 0x200_0000 % 8,
        (op & (1u32 << 24) != 0) == ((op >> 24) % 2 == 1),
        (op & 0xFE00_0000 == 0xFA00_0000) == (op / 0x1000_0000 == 15 && op / 0x200_0000 % 8 == 5),
        op & 0x00FF_FFFF == op % 0x100_0000,
        (op >> 24) & 1 == (op >> 24) % 2,
        (op & (1u32 << 25) != 0) == ((op >> 25) % 2 == 1),
        (op & (1u32 << 23) != 0) == ((op >> 23) % 2 == 1),
        (op & (1u32 << 22) != 0) == ((op >> 22) % 2 == 1),
        (op & (1u32 << 21) != 0) == ((op >> 21) % 2 == 1),
        (op & (1u32 << 20) != 0) == ((op >> 20) % 2 == 1),
        (op & (1u32 << 4) != 0) == ((op >> 4) % 2 == 1),
        (op >> 25) % 2 == op / 0x200_0000 % 8 % 2,
        op & 0xF == op % 16,
        op & 0xFFF == op % 0x1000,
        op & 0xFFFF == op % 0x1_0000,
        (op >> 4) & 0xF == (op >> 4) % 16,
        (op >> 5) & 3 == (op >> 5) % 4,
        (op >> 7) & 0x1F == (op >> 7) % 32,
        (op >> 8) & 0xF == (op >> 8) % 16,
        (op >> 12) & 0xF == (op >> 12) % 16,
        (op >> 16) & 0xF == (op >> 16) % 16,
        ((op >> 4) & 0xF0) | (op & 0xF) == 16 * ((op >> 8) % 16) + op % 16,
        ((op >> 12) & 0xF) & 1 == (op >> 12) % 2,
        (op & 0x90 == 0x90) == ((op >> 7) % 2 == 1 && (op >> 4) % 2 == 1),
        (op >> 23) & 3 == (op >> 23) % 4,
        (op >> 21) & 7 == (op >> 21) % 8,
        (op >> 21) & 3 == (op >> 21) % 4,
        ((op >> 4) & 0xF) & 9 == 8 * ((op >> 7) % 2) + (op >> 4) % 2,
        (op >> 4) % 16 % 2 == (op >> 4) % 2,
        (op >> 12) % 16 % 2 == (op >> 12) % 2,
{
}

/// b and bl go as many words past the instruction after the next as their low
/// bits say.
pub proof fn law_arm_branches(
    out: Seq<char>,
    scope: Names,
    address: u32,
    op: u32,
    machine: Machine,
)
    requires
        condition(op) == 14,
        kind(op) == 5,
        address % 2 == 0,
        sound(machine),
        machine.fields.contains_key(Field::Thumb),
        machine.field(Field::Thumb) == 0,
    ensures
        ({
            let code = lower::lower_code(out, scope, address, op);
            let target = ((address + 8 + 4 * distance(op)) % 0x1_0000_0000) as u32;
            &&& code.on == flag(op, 24)
            &&& does(
                out,
                code.text,
                machine,
                if flag(op, 24) {
                    called(machine, scope, address.wrapping_add(4), false, target, false)
                } else {
                    jumped(machine, scope, target, false)
                },
            )
        }),
{
    lemma_arm_fields(op);
    let target = ((address + 8 + 4 * distance(op)) % 0x1_0000_0000) as u32;
    assert(arm::displaced(address.wrapping_add(8), arm::branch_offset(op)) == target);
    if flag(op, 24) {
        law_calls(out, scope, address.wrapping_add(4), false, target, false, machine);
    } else {
        law_jumps(out, scope, target, false, machine);
    }
}

proof fn lemma_thumb_target(address: u32, op: u32)
    requires
        address % 2 == 0,
    ensures
        ({
            let target = arm::displaced(
                address.wrapping_add(8),
                arm::branch_offset(op) + 2 * ((op >> 24) & 1),
            );
            &&& target == (address + 8 + 4 * distance(op) + (if flag(op, 24) {
                2int
            } else {
                0
            })) % 0x1_0000_0000
            &&& target % 2 == 0
        }),
{
    lemma_arm_fields(op);
    let whole = address + 8 + 4 * distance(op) + (if flag(op, 24) {
        2int
    } else {
        0
    });
    assert(whole % 2 == 0);
}

/// blx to an address runs Thumb code, which may be half a word further.
pub proof fn law_arm_calls_thumb(
    out: Seq<char>,
    scope: Names,
    address: u32,
    op: u32,
    machine: Machine,
)
    requires
        condition(op) == 15,
        kind(op) == 5,
        address % 2 == 0,
        sound(machine),
        machine.fields.contains_key(Field::Thumb),
        machine.field(Field::Thumb) == 0,
    ensures
        ({
            let code = lower::lower_code(out, scope, address, op);
            let target = ((address + 8 + 4 * distance(op) + (if flag(op, 24) {
                2int
            } else {
                0
            })) % 0x1_0000_0000) as u32;
            code.on && does(
                out,
                code.text,
                machine,
                called(machine, scope, address.wrapping_add(4), false, target, true),
            )
        }),
{
    lemma_arm_fields(op);
    let target = ((address + 8 + 4 * distance(op) + (if flag(op, 24) {
        2int
    } else {
        0
    })) % 0x1_0000_0000) as u32;
    lemma_thumb_target(address, op);
    lemma_key_bits(target);
    law_calls(out, scope, address.wrapping_add(4), false, target, true, machine);
}

/// svc enters the kernel with its number, to come back to the next instruction.
pub proof fn law_arm_svc(out: Seq<char>, scope: Names, address: u32, op: u32, machine: Machine)
    requires
        condition(op) == 14,
        kind(op) == 7,
        flag(op, 24),
    ensures
        ({
            let code = lower::lower_code(out, scope, address, op);
            !code.on && does(
                out,
                code.text,
                machine,
                machine.leaving(
                    Exit::Kernel {
                        back: placed(machine, scope, address.wrapping_add(4)) as int,
                        number: (op % 0x100_0000) as int,
                    },
                ),
            )
        }),
{
    lemma_arm_fields(op);
    lemma_svc(out, scope, address.wrapping_add(4), op % 0x100_0000, machine);
}

/// svc enters the kernel.
pub proof fn lemma_svc(out: Seq<char>, scope: Names, next: u32, number: u32, machine: Machine)
    ensures
        does(
            out,
            text::emitted(
                out,
                "    SVC({}, 0x{}u);"@,
                seq![scope.at(next), text::hex(number as nat)],
            ),
            machine,
            machine.leaving(
                Exit::Kernel {
                    back: placed(machine, scope, next) as int,
                    number: number as int,
                },
            ),
        ),
{
    let x = place(scope, next);
    lemma_place(scope, next, machine);
    lines::lemma_svc_line(x, number as nat);
    let after = machine.leaving(
        Exit::Kernel { back: placed(machine, scope, next) as int, number: number as int },
    );
    assert(lines::svc_line(x, number as nat).run(machine) == after) by {
        broadcast use group_running;

    }
    lemma_line_does(
        out,
        "    SVC({}, 0x{}u);"@,
        seq![x.text(), text::hex(number as nat)],
        lines::svc_line(x, number as nat),
        machine,
        after,
    );
}

/// what is left to the interpreter is handed over with where it is.
pub proof fn law_interpreted(out: Seq<char>, scope: Names, address: u32, op: u32, machine: Machine)
    ensures
        ({
            let code = vfp::interpret_code(out, scope, address, op);
            code.on && does(
                out,
                code.text,
                machine,
                machine.seeing(
                    Event::Interprets {
                        address: placed(machine, scope, address) as int,
                        code: op as int,
                    },
                ),
            )
        }),
        ({
            let code = thumb_lower::interpret_code(out, scope, address, op);
            code.on && does(
                out,
                code.text,
                machine,
                machine.seeing(
                    Event::Interprets {
                        address: placed(machine, scope, address) as int,
                        code: op as int,
                    },
                ),
            )
        }),
{
    let x = place(scope, address);
    lemma_place(scope, address, machine);
    lines::lemma_interpret_line(x, op as nat);
    lines::lemma_interpret_half_line(x, op as nat);
    let after = machine.seeing(
        Event::Interprets { address: placed(machine, scope, address) as int, code: op as int },
    );
    assert(lines::interpret_line(x, op as nat).run(machine) == after) by {
        broadcast use group_running;

    }
    assert(lines::interpret_half_line(x, op as nat).run(machine) == after) by {
        broadcast use group_running;

    }
    lemma_line_does(
        out,
        "    INTERPRET({}, 0x{}u);"@,
        seq![x.text(), text::hex_wide(op as nat, 8)],
        lines::interpret_line(x, op as nat),
        machine,
        after,
    );
    lemma_line_does(
        out,
        "    INTERPRET({}, 0x{}u);"@,
        seq![x.text(), text::hex_wide(op as nat, 4)],
        lines::interpret_half_line(x, op as nat),
        machine,
        after,
    );
}

} // verus!
