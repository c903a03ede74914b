//! what the condition of an ARM instruction does to its C, and that C is only
//! ever added at the end.

use crate::arm;
use crate::codegen;
use crate::codegen::arm as lowering;
use crate::codegen::vfp;
use crate::codegen::{Code, Names};
use crate::text;
use vstd::prelude::*;

verus! {

/// the two are the same instruction under different conditions.
pub open spec fn same_but_condition(x: u32, y: u32) -> bool {
    x & 0x0FFF_FFFF == y & 0x0FFF_FFFF
}

proof fn lemma_fields(x: u32, y: u32)
    by (bit_vector)
    requires
        x & 0x0FFF_FFFF == y & 0x0FFF_FFFF,
    ensures
        (x >> 10) & 3 == (y >> 10) & 3,
        (x >> 12) & 0xF == (y >> 12) & 0xF,
        (x >> 16) & 0x1F == (y >> 16) & 0x1F,
        (x >> 16) & 0xF == (y >> 16) & 0xF,
        (x >> 20) & 0b1011 == (y >> 20) & 0b1011,
        (x >> 20) & 0x1F == (y >> 20) & 0x1F,
        (x >> 21) & 0x7F == (y >> 21) & 0x7F,
        (x >> 21) & 0xF == (y >> 21) & 0xF,
        (x >> 21) & 3 == (y >> 21) & 3,
        (x >> 21) & 7 == (y >> 21) & 7,
        (x >> 23) & 3 == (y >> 23) & 3,
        (x >> 25) & 7 == (y >> 25) & 7,
        (x >> 4) & 0xF == (y >> 4) & 0xF,
        (x >> 4) & 0xF0 == (y >> 4) & 0xF0,
        (x >> 5) & 1 == (y >> 5) & 1,
        (x >> 5) & 3 == (y >> 5) & 3,
        (x >> 5) & 7 == (y >> 5) & 7,
        (x >> 6) & 1 == (y >> 6) & 1,
        (x >> 7) & 0x1F == (y >> 7) & 0x1F,
        (x >> 8) & 0xF == (y >> 8) & 0xF,
        x & 0x00FF_FFFF == y & 0x00FF_FFFF,
        x & 0x0200_0FFF == y & 0x0200_0FFF,
        x & 0x0FFF_0F10 == y & 0x0FFF_0F10,
        x & 0x0FFF_0FFF == y & 0x0FFF_0FFF,
        x & 0x90 == y & 0x90,
        x & 0xF == y & 0xF,
        x & 0xFF == y & 0xFF,
        x & 0xFFF == y & 0xFFF,
        x & 0xFFFF == y & 0xFFFF,
        arm::bit(x, 4) == arm::bit(y, 4),
        arm::bit(x, 5) == arm::bit(y, 5),
        arm::bit(x, 6) == arm::bit(y, 6),
        arm::bit(x, 7) == arm::bit(y, 7),
        arm::bit(x, 20) == arm::bit(y, 20),
        arm::bit(x, 21) == arm::bit(y, 21),
        arm::bit(x, 22) == arm::bit(y, 22),
        arm::bit(x, 23) == arm::bit(y, 23),
        arm::bit(x, 24) == arm::bit(y, 24),
        arm::bit(x, 25) == arm::bit(y, 25),
{
}

/// p and q are the same C, or each leaves its instruction to the interpreter,
/// which gets to see the condition too.
pub open spec fn same_or_interpreted(
    p: Code,
    q: Code,
    out: Seq<char>,
    scope: Names,
    a: u32,
    x: u32,
    y: u32,
) -> bool {
    p == q || (p == vfp::interpret_code(out, scope, a, x) && q == vfp::interpret_code(
        out,
        scope,
        a,
        y,
    ))
}

/// p is q with out in front.
pub open spec fn put_after(p: Code, q: Code, out: Seq<char>) -> bool {
    p.text == out + q.text && p.on == q.on
}

pub broadcast proof fn lemma_line_appends(
    out: Seq<char>,
    rest: Seq<char>,
    template: Seq<char>,
    args: Seq<Seq<char>>,
)
    ensures
        #[trigger] text::emitted(out + rest, template, args) == out + text::emitted(
            rest,
            template,
            args,
        ),
{
    assert(text::emitted(out + rest, template, args) =~= out + text::emitted(
        rest,
        template,
        args,
    ));
}

proof fn lemma_interpret_appends(
    out: Seq<char>,
    rest: Seq<char>,
    scope: Names,
    a: u32,
    op: u32,
)
    ensures
        put_after(
            vfp::interpret_code(out + rest, scope, a, op),
            vfp::interpret_code(rest, scope, a, op),
            out,
        ),
{
    broadcast use lemma_line_appends;

}

proof fn lemma_cp15_same(out: Seq<char>, scope: Names, a: u32, x: u32, y: u32)
    requires
        same_but_condition(x, y),
    ensures
        same_or_interpreted(
            lowering::cp15_code(out, scope, a, x),
            lowering::cp15_code(out, scope, a, y),
            out,
            scope,
            a,
            x,
            y,
        ),
{
    lemma_fields(x, y);
}

proof fn lemma_cp15_appends(
    out: Seq<char>,
    rest: Seq<char>,
    scope: Names,
    a: u32,
    op: u32,
)
    ensures
        put_after(
            lowering::cp15_code(out + rest, scope, a, op),
            lowering::cp15_code(rest, scope, a, op),
            out,
        ),
{
    broadcast use lemma_line_appends;

}

proof fn lemma_extra_transfer_same(out: Seq<char>, scope: Names, a: u32, x: u32, y: u32)
    requires
        same_but_condition(x, y),
    ensures
        same_or_interpreted(
            lowering::extra_transfer_code(out, scope, a, x),
            lowering::extra_transfer_code(out, scope, a, y),
            out,
            scope,
            a,
            x,
            y,
        ),
{
    lemma_fields(x, y);
}

proof fn lemma_extra_transfer_appends(
    out: Seq<char>,
    rest: Seq<char>,
    scope: Names,
    a: u32,
    op: u32,
)
    ensures
        put_after(
            lowering::extra_transfer_code(out + rest, scope, a, op),
            lowering::extra_transfer_code(rest, scope, a, op),
            out,
        ),
{
    broadcast use lemma_line_appends;

}

proof fn lemma_single_transfer_same(out: Seq<char>, scope: Names, a: u32, x: u32, y: u32)
    requires
        same_but_condition(x, y),
    ensures
        same_or_interpreted(
            lowering::single_transfer_code(out, scope, a, x),
            lowering::single_transfer_code(out, scope, a, y),
            out,
            scope,
            a,
            x,
            y,
        ),
{
    lemma_fields(x, y);
}

proof fn lemma_single_transfer_appends(
    out: Seq<char>,
    rest: Seq<char>,
    scope: Names,
    a: u32,
    op: u32,
)
    ensures
        put_after(
            lowering::single_transfer_code(out + rest, scope, a, op),
            lowering::single_transfer_code(rest, scope, a, op),
            out,
        ),
{
    broadcast use lemma_line_appends;

}

proof fn lemma_swap_same(out: Seq<char>, scope: Names, a: u32, x: u32, y: u32)
    requires
        same_but_condition(x, y),
    ensures
        same_or_interpreted(
            lowering::swap_code(out, scope, a, x),
            lowering::swap_code(out, scope, a, y),
            out,
            scope,
            a,
            x,
            y,
        ),
{
    lemma_fields(x, y);
}

proof fn lemma_swap_appends(
    out: Seq<char>,
    rest: Seq<char>,
    scope: Names,
    a: u32,
    op: u32,
)
    ensures
        put_after(
            lowering::swap_code(out + rest, scope, a, op),
            lowering::swap_code(rest, scope, a, op),
            out,
        ),
{
    broadcast use lemma_line_appends;

}

proof fn lemma_exclusive_same(out: Seq<char>, scope: Names, a: u32, x: u32, y: u32)
    requires
        same_but_condition(x, y),
    ensures
        same_or_interpreted(
            lowering::exclusive_code(out, scope, a, x),
            lowering::exclusive_code(out, scope, a, y),
            out,
            scope,
            a,
            x,
            y,
        ),
{
    lemma_fields(x, y);
}

proof fn lemma_exclusive_appends(
    out: Seq<char>,
    rest: Seq<char>,
    scope: Names,
    a: u32,
    op: u32,
)
    ensures
        put_after(
            lowering::exclusive_code(out + rest, scope, a, op),
            lowering::exclusive_code(rest, scope, a, op),
            out,
        ),
{
    broadcast use lemma_line_appends;

}

proof fn lemma_multiply_same(out: Seq<char>, scope: Names, a: u32, x: u32, y: u32)
    requires
        same_but_condition(x, y),
    ensures
        same_or_interpreted(
            lowering::multiply_code(out, scope, a, x),
            lowering::multiply_code(out, scope, a, y),
            out,
            scope,
            a,
            x,
            y,
        ),
{
    lemma_fields(x, y);
}

proof fn lemma_multiply_appends(
    out: Seq<char>,
    rest: Seq<char>,
    scope: Names,
    a: u32,
    op: u32,
)
    ensures
        put_after(
            lowering::multiply_code(out + rest, scope, a, op),
            lowering::multiply_code(rest, scope, a, op),
            out,
        ),
{
    broadcast use lemma_line_appends;

}

proof fn lemma_multiply_long_same(out: Seq<char>, scope: Names, a: u32, x: u32, y: u32)
    requires
        same_but_condition(x, y),
    ensures
        same_or_interpreted(
            lowering::multiply_long_code(out, scope, a, x),
            lowering::multiply_long_code(out, scope, a, y),
            out,
            scope,
            a,
            x,
            y,
        ),
{
    lemma_fields(x, y);
}

proof fn lemma_multiply_long_appends(
    out: Seq<char>,
    rest: Seq<char>,
    scope: Names,
    a: u32,
    op: u32,
)
    ensures
        put_after(
            lowering::multiply_long_code(out + rest, scope, a, op),
            lowering::multiply_long_code(rest, scope, a, op),
            out,
        ),
{
    broadcast use lemma_line_appends;

}

proof fn lemma_halfword_multiply_same(out: Seq<char>, scope: Names, a: u32, x: u32, y: u32)
    requires
        same_but_condition(x, y),
    ensures
        same_or_interpreted(
            lowering::halfword_multiply_code(out, scope, a, x),
            lowering::halfword_multiply_code(out, scope, a, y),
            out,
            scope,
            a,
            x,
            y,
        ),
{
    lemma_fields(x, y);
}

proof fn lemma_halfword_multiply_appends(
    out: Seq<char>,
    rest: Seq<char>,
    scope: Names,
    a: u32,
    op: u32,
)
    ensures
        put_after(
            lowering::halfword_multiply_code(out + rest, scope, a, op),
            lowering::halfword_multiply_code(rest, scope, a, op),
            out,
        ),
{
    broadcast use lemma_line_appends;

}

proof fn lemma_saturating_same(out: Seq<char>, scope: Names, a: u32, x: u32, y: u32)
    requires
        same_but_condition(x, y),
    ensures
        same_or_interpreted(
            lowering::saturating_code(out, scope, a, x),
            lowering::saturating_code(out, scope, a, y),
            out,
            scope,
            a,
            x,
            y,
        ),
{
    lemma_fields(x, y);
}

proof fn lemma_saturating_appends(
    out: Seq<char>,
    rest: Seq<char>,
    scope: Names,
    a: u32,
    op: u32,
)
    ensures
        put_after(
            lowering::saturating_code(out + rest, scope, a, op),
            lowering::saturating_code(rest, scope, a, op),
            out,
        ),
{
    broadcast use lemma_line_appends;

}

proof fn lemma_clz_same(out: Seq<char>, scope: Names, a: u32, x: u32, y: u32)
    requires
        same_but_condition(x, y),
    ensures
        same_or_interpreted(
            lowering::clz_code(out, scope, a, x),
            lowering::clz_code(out, scope, a, y),
            out,
            scope,
            a,
            x,
            y,
        ),
{
    lemma_fields(x, y);
}

proof fn lemma_clz_appends(
    out: Seq<char>,
    rest: Seq<char>,
    scope: Names,
    a: u32,
    op: u32,
)
    ensures
        put_after(
            lowering::clz_code(out + rest, scope, a, op),
            lowering::clz_code(rest, scope, a, op),
            out,
        ),
{
    broadcast use lemma_line_appends;

}

proof fn lemma_branch_exchange_same(out: Seq<char>, scope: Names, a: u32, x: u32, y: u32)
    requires
        same_but_condition(x, y),
    ensures
        same_or_interpreted(
            lowering::branch_exchange_code(out, scope, a, x),
            lowering::branch_exchange_code(out, scope, a, y),
            out,
            scope,
            a,
            x,
            y,
        ),
{
    lemma_fields(x, y);
}

proof fn lemma_branch_exchange_appends(
    out: Seq<char>,
    rest: Seq<char>,
    scope: Names,
    a: u32,
    op: u32,
)
    ensures
        put_after(
            lowering::branch_exchange_code(out + rest, scope, a, op),
            lowering::branch_exchange_code(rest, scope, a, op),
            out,
        ),
{
    broadcast use lemma_line_appends;

}

proof fn lemma_usad8_same(out: Seq<char>, scope: Names, a: u32, x: u32, y: u32)
    requires
        same_but_condition(x, y),
    ensures
        same_or_interpreted(
            lowering::usad8_code(out, scope, a, x),
            lowering::usad8_code(out, scope, a, y),
            out,
            scope,
            a,
            x,
            y,
        ),
{
    lemma_fields(x, y);
}

proof fn lemma_usad8_appends(
    out: Seq<char>,
    rest: Seq<char>,
    scope: Names,
    a: u32,
    op: u32,
)
    ensures
        put_after(
            lowering::usad8_code(out + rest, scope, a, op),
            lowering::usad8_code(rest, scope, a, op),
            out,
        ),
{
    broadcast use lemma_line_appends;

}

proof fn lemma_shifter_operand_same(
    out: Seq<char>,
    scope: Names,
    a: u32,
    x: u32,
    y: u32,
    carry: bool,
)
    requires
        same_but_condition(x, y),
    ensures
        lowering::shifter_operand_text(out, scope, a, x, carry) == lowering::shifter_operand_text(
            out,
            scope,
            a,
            y,
            carry,
        ),
{
    lemma_fields(x, y);
}

proof fn lemma_shifter_operand_appends(
    out: Seq<char>,
    rest: Seq<char>,
    scope: Names,
    a: u32,
    op: u32,
    carry: bool,
)
    ensures
        lowering::shifter_operand_text(out + rest, scope, a, op, carry) == out
            + lowering::shifter_operand_text(rest, scope, a, op, carry),
{
    broadcast use lemma_line_appends;

}

proof fn lemma_data_processing_same(out: Seq<char>, scope: Names, a: u32, x: u32, y: u32)
    requires
        same_but_condition(x, y),
    ensures
        same_or_interpreted(
            lowering::data_processing_code(out, scope, a, x),
            lowering::data_processing_code(out, scope, a, y),
            out,
            scope,
            a,
            x,
            y,
        ),
{
    lemma_fields(x, y);
    let opcode = (x >> 21) & 0xF;
    let begun = text::emitted(out, "    {"@, Seq::empty());
    let carry = arm::bit(x, 20) && lowering::is_logical(opcode);
    lemma_shifter_operand_same(begun, scope, a, x, y, carry);
}

proof fn lemma_data_processing_appends(
    out: Seq<char>,
    rest: Seq<char>,
    scope: Names,
    a: u32,
    op: u32,
)
    ensures
        put_after(
            lowering::data_processing_code(out + rest, scope, a, op),
            lowering::data_processing_code(rest, scope, a, op),
            out,
        ),
{
    broadcast use lemma_line_appends;

    let opcode = (op >> 21) & 0xF;
    let begun = text::emitted(rest, "    {"@, Seq::empty());
    let carry = arm::bit(op, 20) && lowering::is_logical(opcode);
    lemma_shifter_operand_appends(out, begun, scope, a, op, carry);
}

proof fn lemma_list_loaded_appends(out: Seq<char>, rest: Seq<char>, list: u32, number: nat)
    ensures
        lowering::list_loaded(out + rest, list, number) == out + lowering::list_loaded(
            rest,
            list,
            number,
        ),
    decreases number,
{
    broadcast use lemma_line_appends;

    if number > 0 {
        lemma_list_loaded_appends(out, rest, list, (number - 1) as nat);
    }
}

proof fn lemma_list_stored_appends(
    out: Seq<char>,
    rest: Seq<char>,
    scope: Names,
    a: u32,
    list: u32,
    rn: u32,
    writeback: bool,
    number: nat,
)
    ensures
        lowering::list_stored(out + rest, scope, a, list, rn, writeback, number) == out
            + lowering::list_stored(rest, scope, a, list, rn, writeback, number),
    decreases number,
{
    broadcast use lemma_line_appends;

    if number > 0 {
        lemma_list_stored_appends(
            out,
            rest,
            scope,
            a,
            list,
            rn,
            writeback,
            (number - 1) as nat,
        );
    }
}

proof fn lemma_block_transfer_same(out: Seq<char>, scope: Names, a: u32, x: u32, y: u32)
    requires
        same_but_condition(x, y),
    ensures
        same_or_interpreted(
            lowering::block_transfer_code(out, scope, a, x),
            lowering::block_transfer_code(out, scope, a, y),
            out,
            scope,
            a,
            x,
            y,
        ),
{
    lemma_fields(x, y);
}

proof fn lemma_block_transfer_appends(
    out: Seq<char>,
    rest: Seq<char>,
    scope: Names,
    a: u32,
    op: u32,
)
    ensures
        put_after(
            lowering::block_transfer_code(out + rest, scope, a, op),
            lowering::block_transfer_code(rest, scope, a, op),
            out,
        ),
{
    broadcast use lemma_line_appends;

    let rn = (op >> 16) & 0xF;
    let writeback = arm::bit(op, 21);
    let list = op & 0xFFFF;
    let (lowest, last) = lowering::span_text(
        arm::bit(op, 23),
        arm::bit(op, 24),
        lowering::listed(list, 16) * 4,
    );
    let back = seq![text::dec(rn as nat)];
    let begun = text::emitted(
        rest,
        "    { uint32_t base = ctx->r[{}], p = {}, fin = {};"@,
        seq![text::dec(rn as nat), lowest, last],
    );
    let moved = text::emitted(begun, "    ctx->r[{}] = fin;"@, back);
    lemma_list_loaded_appends(out, begun, list, 15);
    lemma_list_loaded_appends(out, moved, list, 15);
    lemma_list_stored_appends(out, begun, scope, a, list, rn, writeback, 16);
}

proof fn lemma_parallel_same(
    out: Seq<char>,
    scope: Names,
    a: u32,
    x: u32,
    y: u32,
    op1: u32,
    op2: u32,
)
    requires
        same_but_condition(x, y),
    ensures
        same_or_interpreted(
            lowering::parallel_code(out, scope, a, x, op1, op2),
            lowering::parallel_code(out, scope, a, y, op1, op2),
            out,
            scope,
            a,
            x,
            y,
        ),
{
    lemma_fields(x, y);
}

proof fn lemma_parallel_appends(
    out: Seq<char>,
    rest: Seq<char>,
    scope: Names,
    a: u32,
    op: u32,
    op1: u32,
    op2: u32,
)
    ensures
        put_after(
            lowering::parallel_code(out + rest, scope, a, op, op1, op2),
            lowering::parallel_code(rest, scope, a, op, op1, op2),
            out,
        ),
{
    broadcast use lemma_line_appends;

}

proof fn lemma_pack_saturate_extend_same(
    out: Seq<char>,
    scope: Names,
    a: u32,
    x: u32,
    y: u32,
    op1: u32,
    op2: u32,
)
    requires
        same_but_condition(x, y),
    ensures
        same_or_interpreted(
            lowering::pack_saturate_extend_code(out, scope, a, x, op1, op2),
            lowering::pack_saturate_extend_code(out, scope, a, y, op1, op2),
            out,
            scope,
            a,
            x,
            y,
        ),
{
    lemma_fields(x, y);
}

proof fn lemma_pack_saturate_extend_appends(
    out: Seq<char>,
    rest: Seq<char>,
    scope: Names,
    a: u32,
    op: u32,
    op1: u32,
    op2: u32,
)
    ensures
        put_after(
            lowering::pack_saturate_extend_code(out + rest, scope, a, op, op1, op2),
            lowering::pack_saturate_extend_code(rest, scope, a, op, op1, op2),
            out,
        ),
{
    broadcast use lemma_line_appends;

}

proof fn lemma_dual_multiply_same(out: Seq<char>, scope: Names, a: u32, x: u32, y: u32, op1: u32)
    requires
        same_but_condition(x, y),
    ensures
        same_or_interpreted(
            lowering::dual_multiply_code(out, scope, a, x, op1),
            lowering::dual_multiply_code(out, scope, a, y, op1),
            out,
            scope,
            a,
            x,
            y,
        ),
{
    lemma_fields(x, y);
}

proof fn lemma_dual_multiply_appends(
    out: Seq<char>,
    rest: Seq<char>,
    scope: Names,
    a: u32,
    op: u32,
    op1: u32,
)
    ensures
        put_after(
            lowering::dual_multiply_code(out + rest, scope, a, op, op1),
            lowering::dual_multiply_code(rest, scope, a, op, op1),
            out,
        ),
{
    broadcast use lemma_line_appends;

}

proof fn lemma_media_same(out: Seq<char>, scope: Names, a: u32, x: u32, y: u32)
    requires
        same_but_condition(x, y),
    ensures
        same_or_interpreted(
            lowering::media_code(out, scope, a, x),
            lowering::media_code(out, scope, a, y),
            out,
            scope,
            a,
            x,
            y,
        ),
{
    lemma_fields(x, y);
    let op1 = (x >> 20) & 0x1F;
    let op2 = (x >> 5) & 7;
    lemma_parallel_same(out, scope, a, x, y, op1, op2);
    lemma_pack_saturate_extend_same(out, scope, a, x, y, op1, op2);
    lemma_dual_multiply_same(out, scope, a, x, y, op1);
    lemma_usad8_same(out, scope, a, x, y);
}

proof fn lemma_media_appends(
    out: Seq<char>,
    rest: Seq<char>,
    scope: Names,
    a: u32,
    op: u32,
)
    ensures
        put_after(
            lowering::media_code(out + rest, scope, a, op),
            lowering::media_code(rest, scope, a, op),
            out,
        ),
{
    broadcast use lemma_line_appends;

    let op1 = (op >> 20) & 0x1F;
    let op2 = (op >> 5) & 7;
    lemma_parallel_appends(out, rest, scope, a, op, op1, op2);
    lemma_pack_saturate_extend_appends(out, rest, scope, a, op, op1, op2);
    lemma_dual_multiply_appends(out, rest, scope, a, op, op1);
    lemma_usad8_appends(out, rest, scope, a, op);
}

proof fn lemma_register_space_same(out: Seq<char>, scope: Names, a: u32, x: u32, y: u32)
    requires
        same_but_condition(x, y),
    ensures
        same_or_interpreted(
            lowering::register_space_code(out, scope, a, x),
            lowering::register_space_code(out, scope, a, y),
            out,
            scope,
            a,
            x,
            y,
        ),
{
    lemma_fields(x, y);
    lemma_extra_transfer_same(out, scope, a, x, y);
    lemma_exclusive_same(out, scope, a, x, y);
    lemma_swap_same(out, scope, a, x, y);
    lemma_multiply_same(out, scope, a, x, y);
    lemma_multiply_long_same(out, scope, a, x, y);
    lemma_clz_same(out, scope, a, x, y);
    lemma_branch_exchange_same(out, scope, a, x, y);
    lemma_saturating_same(out, scope, a, x, y);
    lemma_halfword_multiply_same(out, scope, a, x, y);
    lemma_data_processing_same(out, scope, a, x, y);
}

proof fn lemma_register_space_appends(
    out: Seq<char>,
    rest: Seq<char>,
    scope: Names,
    a: u32,
    op: u32,
)
    ensures
        put_after(
            lowering::register_space_code(out + rest, scope, a, op),
            lowering::register_space_code(rest, scope, a, op),
            out,
        ),
{
    lemma_interpret_appends(out, rest, scope, a, op);
    lemma_extra_transfer_appends(out, rest, scope, a, op);
    lemma_exclusive_appends(out, rest, scope, a, op);
    lemma_swap_appends(out, rest, scope, a, op);
    lemma_multiply_appends(out, rest, scope, a, op);
    lemma_multiply_long_appends(out, rest, scope, a, op);
    lemma_clz_appends(out, rest, scope, a, op);
    lemma_branch_exchange_appends(out, rest, scope, a, op);
    lemma_saturating_appends(out, rest, scope, a, op);
    lemma_halfword_multiply_appends(out, rest, scope, a, op);
    lemma_data_processing_appends(out, rest, scope, a, op);
}

proof fn lemma_extension_same(
    out: Seq<char>,
    scope: Names,
    a: u32,
    x: u32,
    y: u32,
    wide: bool,
    rd: u32,
    rm: u32,
)
    requires
        same_but_condition(x, y),
    ensures
        same_or_interpreted(
            vfp::extension_code(out, scope, a, x, wide, rd, rm),
            vfp::extension_code(out, scope, a, y, wide, rd, rm),
            out,
            scope,
            a,
            x,
            y,
        ),
{
    lemma_fields(x, y);
}

proof fn lemma_extension_appends(
    out: Seq<char>,
    rest: Seq<char>,
    scope: Names,
    a: u32,
    op: u32,
    wide: bool,
    rd: u32,
    rm: u32,
)
    ensures
        put_after(
            vfp::extension_code(out + rest, scope, a, op, wide, rd, rm),
            vfp::extension_code(rest, scope, a, op, wide, rd, rm),
            out,
        ),
{
    broadcast use lemma_line_appends;

}

proof fn lemma_vfp_data_processing_same(out: Seq<char>, scope: Names, a: u32, x: u32, y: u32)
    requires
        same_but_condition(x, y),
    ensures
        same_or_interpreted(
            vfp::data_processing_code(out, scope, a, x),
            vfp::data_processing_code(out, scope, a, y),
            out,
            scope,
            a,
            x,
            y,
        ),
{
    lemma_fields(x, y);
    let wide = vfp::coprocessor(x) == 11;
    let rd = vfp::operand(wide, (x >> 12) & 0xF, arm::bit(x, 22));
    let rm = vfp::operand(wide, x & 0xF, arm::bit(x, 5));
    lemma_extension_same(out, scope, a, x, y, wide, rd, rm);
}

proof fn lemma_vfp_data_processing_appends(
    out: Seq<char>,
    rest: Seq<char>,
    scope: Names,
    a: u32,
    op: u32,
)
    ensures
        put_after(
            vfp::data_processing_code(out + rest, scope, a, op),
            vfp::data_processing_code(rest, scope, a, op),
            out,
        ),
{
    broadcast use lemma_line_appends;

    let wide = vfp::coprocessor(op) == 11;
    let rd = vfp::operand(wide, (op >> 12) & 0xF, arm::bit(op, 22));
    let rm = vfp::operand(wide, op & 0xF, arm::bit(op, 5));
    lemma_extension_appends(out, rest, scope, a, op, wide, rd, rm);
}

proof fn lemma_register_transfer_same(out: Seq<char>, scope: Names, a: u32, x: u32, y: u32)
    requires
        same_but_condition(x, y),
    ensures
        same_or_interpreted(
            vfp::register_transfer_code(out, scope, a, x),
            vfp::register_transfer_code(out, scope, a, y),
            out,
            scope,
            a,
            x,
            y,
        ),
{
    lemma_fields(x, y);
}

proof fn lemma_register_transfer_appends(
    out: Seq<char>,
    rest: Seq<char>,
    scope: Names,
    a: u32,
    op: u32,
)
    ensures
        put_after(
            vfp::register_transfer_code(out + rest, scope, a, op),
            vfp::register_transfer_code(rest, scope, a, op),
            out,
        ),
{
    broadcast use lemma_line_appends;

}

proof fn lemma_move_pair_same(out: Seq<char>, scope: Names, a: u32, x: u32, y: u32, wide: bool)
    requires
        same_but_condition(x, y),
    ensures
        same_or_interpreted(
            vfp::move_pair_code(out, scope, a, x, wide),
            vfp::move_pair_code(out, scope, a, y, wide),
            out,
            scope,
            a,
            x,
            y,
        ),
{
    lemma_fields(x, y);
}

proof fn lemma_move_pair_appends(
    out: Seq<char>,
    rest: Seq<char>,
    scope: Names,
    a: u32,
    op: u32,
    wide: bool,
)
    ensures
        put_after(
            vfp::move_pair_code(out + rest, scope, a, op, wide),
            vfp::move_pair_code(rest, scope, a, op, wide),
            out,
        ),
{
    broadcast use lemma_line_appends;

}

proof fn lemma_registers_moved_appends(
    out: Seq<char>,
    rest: Seq<char>,
    wide: bool,
    load: bool,
    first: u32,
    count: nat,
)
    ensures
        vfp::registers_moved(out + rest, wide, load, first, count) == out + vfp::registers_moved(
            rest,
            wide,
            load,
            first,
            count,
        ),
    decreases count,
{
    broadcast use lemma_line_appends;

    if count > 0 {
        lemma_registers_moved_appends(out, rest, wide, load, first, (count - 1) as nat);
    }
}

proof fn lemma_load_store_same(out: Seq<char>, scope: Names, a: u32, x: u32, y: u32)
    requires
        same_but_condition(x, y),
    ensures
        same_or_interpreted(
            vfp::load_store_code(out, scope, a, x),
            vfp::load_store_code(out, scope, a, y),
            out,
            scope,
            a,
            x,
            y,
        ),
{
    lemma_fields(x, y);
    lemma_move_pair_same(out, scope, a, x, y, vfp::coprocessor(x) == 11);
}

proof fn lemma_load_store_appends(
    out: Seq<char>,
    rest: Seq<char>,
    scope: Names,
    a: u32,
    op: u32,
)
    ensures
        put_after(
            vfp::load_store_code(out + rest, scope, a, op),
            vfp::load_store_code(rest, scope, a, op),
            out,
        ),
{
    broadcast use lemma_line_appends;

    let wide = vfp::coprocessor(op) == 11;
    let load = arm::bit(op, 20);
    let up = arm::bit(op, 23);
    let one = arm::bit(op, 24) && !arm::bit(op, 21);
    let rn = (op >> 16) & 0xF;
    let offset = text::hex(((op & 0xFF) * 4) as nat);
    let first = vfp::operand(wide, (op >> 12) & 0xF, arm::bit(op, 22));
    let start = if !up {
        text::fill("base - 0x{}u"@, seq![offset])
    } else if one {
        text::fill("base + 0x{}u"@, seq![offset])
    } else {
        "base"@
    };
    let begun = text::emitted(
        rest,
        "    { uint32_t base = {}, p = {};"@,
        seq![scope.reg(rn, a.wrapping_add(8)), start],
    );
    lemma_registers_moved_appends(
        out,
        begun,
        wide,
        load,
        first,
        vfp::moved_count(wide, one, op) as nat,
    );
    lemma_move_pair_appends(out, rest, scope, a, op, wide);
}

pub proof fn lemma_branches_append(
    out: Seq<char>,
    rest: Seq<char>,
    scope: Names,
    link: u32,
    target: u32,
    thumb: bool,
)
    ensures
        put_after(
            codegen::call_code(out + rest, scope, link, target, thumb),
            codegen::call_code(rest, scope, link, target, thumb),
            out,
        ),
        put_after(
            codegen::jump_code(out + rest, scope, target, thumb),
            codegen::jump_code(rest, scope, target, thumb),
            out,
        ),
{
    broadcast use lemma_line_appends;

}

proof fn lemma_body_same(out: Seq<char>, scope: Names, a: u32, x: u32, y: u32)
    requires
        same_but_condition(x, y),
    ensures
        same_or_interpreted(
            lowering::body_code(out, scope, a, x),
            lowering::body_code(out, scope, a, y),
            out,
            scope,
            a,
            x,
            y,
        ),
{
    lemma_fields(x, y);
    lemma_register_space_same(out, scope, a, x, y);
    lemma_data_processing_same(out, scope, a, x, y);
    lemma_single_transfer_same(out, scope, a, x, y);
    lemma_media_same(out, scope, a, x, y);
    lemma_block_transfer_same(out, scope, a, x, y);
    lemma_load_store_same(out, scope, a, x, y);
    lemma_vfp_data_processing_same(out, scope, a, x, y);
    lemma_register_transfer_same(out, scope, a, x, y);
    lemma_cp15_same(out, scope, a, x, y);
}

proof fn lemma_body_appends(
    out: Seq<char>,
    rest: Seq<char>,
    scope: Names,
    a: u32,
    op: u32,
)
    ensures
        put_after(
            lowering::body_code(out + rest, scope, a, op),
            lowering::body_code(rest, scope, a, op),
            out,
        ),
{
    lemma_interpret_appends(out, rest, scope, a, op);
    lemma_register_space_appends(out, rest, scope, a, op);
    lemma_data_processing_appends(out, rest, scope, a, op);
    lemma_single_transfer_appends(out, rest, scope, a, op);
    lemma_media_appends(out, rest, scope, a, op);
    lemma_block_transfer_appends(out, rest, scope, a, op);
    lemma_load_store_appends(out, rest, scope, a, op);
    lemma_vfp_data_processing_appends(out, rest, scope, a, op);
    lemma_register_transfer_appends(out, rest, scope, a, op);
    lemma_cp15_appends(out, rest, scope, a, op);
    lemma_line_appends(
        out,
        rest,
        "    SVC({}, 0x{}u);"@,
        seq![scope.at(a.wrapping_add(4)), text::hex((op & 0x00FF_FFFF) as nat)],
    );
    let target = arm::displaced(a.wrapping_add(8), arm::branch_offset(op));
    lemma_branches_append(out, rest, scope, a.wrapping_add(4), target, false);
}

/// the C for an instruction is added at the end of what is there, and what is
/// there makes no difference to it.
pub proof fn law_code_is_appended(out: Seq<char>, scope: Names, address: u32, op: u32)
    ensures
        put_after(
            lowering::lower_code(out, scope, address, op),
            lowering::lower_code(Seq::empty(), scope, address, op),
            out,
        ),
{
    broadcast use lemma_line_appends;

    let none = Seq::<char>::empty();
    assert(out + none =~= out);
    let condition = op >> 28;
    if condition == 0xF {
        let target = arm::displaced(
            address.wrapping_add(8),
            arm::branch_offset(op) + 2 * ((op >> 24) & 1),
        );
        lemma_branches_append(out, none, scope, address.wrapping_add(4), target & !1, true);
        assert(text::emitted(out + none, "    ctx->exclusive = 0;"@, Seq::empty()) == out
            + text::emitted(none, "    ctx->exclusive = 0;"@, Seq::empty()));
        assert(put_after(
            vfp::interpret_code(out + none, scope, address, op),
            vfp::interpret_code(none, scope, address, op),
            out,
        ));
    } else if condition == 0xE {
        lemma_body_appends(out, none, scope, address, op);
    } else {
        let begun = text::emitted(
            none,
            "    if ({}) {"@,
            seq![codegen::condition_text(condition)],
        );
        assert(text::emitted(
            out + none,
            "    if ({}) {"@,
            seq![codegen::condition_text(condition)],
        ) == out + begun);
        lemma_body_appends(out, begun, scope, address, op);
    }
}

/// the C for one line.
pub open spec fn line(template: Seq<char>, args: Seq<Seq<char>>) -> Seq<char> {
    text::emitted(Seq::empty(), template, args)
}

/// op under a condition.
pub open spec fn under(op: u32, condition: u32) -> u32 {
    (op & 0x0FFF_FFFF) | (condition << 28)
}

proof fn lemma_under(op: u32, condition: u32)
    by (bit_vector)
    requires
        condition < 0xE,
    ensures
        under(op, condition) >> 28 == condition,
        under(op, 0xE) >> 28 == 0xE,
        under(op, condition) & 0x0FFF_FFFF == under(op, 0xE) & 0x0FFF_FFFF,
{
}

/// inside, put behind out in a test of the condition.
pub open spec fn tested(out: Seq<char>, condition: u32, inside: Seq<char>) -> Seq<char> {
    out + line("    if ({}) {"@, seq![codegen::condition_text(condition)]) + inside + line(
        "    }"@,
        Seq::empty(),
    )
}

/// under a condition that can fail, the C for an ARM instruction is what it is
/// without one, inside a test of the condition, and execution can carry on past
/// it. only an instruction that is left to the interpreter may differ, which
/// is handed over with its condition.
pub proof fn law_condition_wraps_code(
    out: Seq<char>,
    scope: Names,
    address: u32,
    op: u32,
    condition: u32,
)
    requires
        condition < arm::ALWAYS,
    ensures
        ({
            let plain = lowering::lower_code(
                Seq::empty(),
                scope,
                address,
                under(op, arm::ALWAYS),
            );
            let left = vfp::interpret_code(Seq::empty(), scope, address, under(op, arm::ALWAYS));
            let handed = vfp::interpret_code(Seq::empty(), scope, address, under(op, condition));
            let code = lowering::lower_code(out, scope, address, under(op, condition));
            &&& code.on
            &&& plain != left ==> code.text == tested(out, condition, plain.text)
            &&& plain == left ==> code.text == tested(out, condition, plain.text) || code.text
                == tested(out, condition, handed.text)
        }),
{
    let none = Seq::<char>::empty();
    let (x, y) = (under(op, condition), under(op, arm::ALWAYS));
    lemma_under(op, condition);
    let test = line("    if ({}) {"@, seq![codegen::condition_text(condition)]);
    law_code_is_appended(out, scope, address, x);
    assert(test + none =~= test);
    lemma_body_appends(test, none, scope, address, x);
    lemma_body_same(none, scope, address, x, y);
    let inside = lowering::body_code(none, scope, address, x).text;
    lemma_line_appends(test + inside, none, "    }"@, Seq::empty());
    assert((test + inside) + none =~= test + inside);
    assert(text::emitted((test + inside) + none, "    }"@, Seq::empty()) == (test + inside) + line(
        "    }"@,
        Seq::empty(),
    ));
    assert(out + ((test + inside) + line("    }"@, Seq::empty())) =~= out + test + inside + line(
        "    }"@,
        Seq::empty(),
    ));
}

/// code holds the name of the macro that hands an instruction to the
/// interpreter.
pub open spec fn interprets(code: Seq<char>) -> bool {
    exists|i: int|
        0 <= i && i + 9 <= code.len() && #[trigger] code.subrange(i, i + 9) == "INTERPRET"@
}

/// the text that a template starts with is what it gives, up to the first hole.
proof fn lemma_filled_start(template: Seq<char>, args: Seq<Seq<char>>, count: nat)
    requires
        count <= template.len(),
        forall|i: int| 0 <= i < count ==> #[trigger] template[i] != '{',
    ensures
        text::fill(template, args) == template.take(count as int) + text::fill(
            template.skip(count as int),
            args,
        ),
    decreases count,
{
    reveal_with_fuel(text::fill, 2);
    if count == 0 {
        assert(template.skip(0) =~= template);
        assert(template.take(0) + text::fill(template, args) =~= text::fill(template, args));
    } else {
        let rest = template.skip(1);
        assert forall|i: int| 0 <= i < count - 1 implies #[trigger] rest[i] != '{' by {
            assert(template[i + 1] != '{');
        }
        assert(template[0] != '{');
        lemma_filled_start(rest, args, (count - 1) as nat);
        assert(rest.skip(count - 1) =~= template.skip(count as int));
        assert(template.take(count as int) =~= seq![template[0]] + rest.take(count - 1));
        assert(text::fill(template, args) =~= template.take(count as int) + text::fill(
            template.skip(count as int),
            args,
        ));
    }
}

/// what is left to the interpreter says so.
proof fn lemma_interpreted_says_so(scope: Names, a: u32, op: u32)
    ensures
        interprets(vfp::interpret_code(Seq::empty(), scope, a, op).text),
{
    let template = "    INTERPRET({}, 0x{}u);"@;
    let args = seq![scope.at(a), text::hex_wide(op as nat, 8)];
    reveal_strlit("    INTERPRET({}, 0x{}u);");
    reveal_strlit("INTERPRET");
    lemma_filled_start(template, args, 13);
    let code = vfp::interpret_code(Seq::empty(), scope, a, op).text;
    let start: int = 4;
    assert(code.subrange(start, start + 9) =~= "INTERPRET"@);
}

/// the lines of a test are what they look like.
pub proof fn lemma_test_lines(condition: u32)
    ensures
        line("    if ({}) {"@, seq![codegen::condition_text(condition)]) == "    if ("@
            + codegen::condition_text(condition) + ") {\n"@,
        line("    }"@, Seq::empty()) == "    }\n"@,
{
    let name = codegen::condition_text(condition);
    let template = "    if ({}) {"@;
    let args = seq![name];
    reveal_strlit("    if ({}) {");
    reveal_strlit("    if (");
    reveal_strlit(") {\n");
    reveal_strlit("    }");
    reveal_strlit("    }\n");
    lemma_filled_start(template, args, 8);
    let hole = template.skip(8);
    let after = hole.skip(2);
    let none = args.skip(1);
    reveal_with_fuel(text::fill, 2);
    assert(text::fill(hole, args) == name + text::fill(after, none));
    lemma_filled_start(after, none, 2);
    let last = after.skip(2);
    assert(last =~= seq!['{']);
    assert(text::fill(last, none) =~= seq!['{']) by {
        reveal_with_fuel(text::fill, 3);
    }
    assert(line(template, args) =~= "    if ("@ + name + ") {\n"@);
    lemma_filled_start("    }"@, Seq::empty(), 5);
    assert(text::fill("    }"@.skip(5), Seq::empty()) =~= Seq::<char>::empty());
    assert(line("    }"@, Seq::empty()) =~= "    }\n"@);
}

/// where the C of an ARM instruction that always runs hands nothing to the
/// interpreter, the same instruction under a condition that can fail is exactly
/// that C between the test of the condition and a closing brace.
pub proof fn law_conditional_text(
    out: Seq<char>,
    scope: Names,
    address: u32,
    op: u32,
    condition: u32,
)
    requires
        condition < arm::ALWAYS,
        !interprets(
            lowering::lower_code(Seq::empty(), scope, address, under(op, arm::ALWAYS)).text,
        ),
    ensures
        ({
            let plain = lowering::lower_code(
                Seq::empty(),
                scope,
                address,
                under(op, arm::ALWAYS),
            );
            let code = lowering::lower_code(out, scope, address, under(op, condition));
            &&& code.on
            &&& code.text == out + "    if ("@ + codegen::condition_text(condition) + ") {\n"@
                + plain.text + "    }\n"@
        }),
{
    law_condition_wraps_code(out, scope, address, op, condition);
    lemma_interpreted_says_so(scope, address, under(op, arm::ALWAYS));
    lemma_test_lines(condition);
    let plain = lowering::lower_code(Seq::empty(), scope, address, under(op, arm::ALWAYS));
    assert(tested(out, condition, plain.text) =~= out + "    if ("@ + codegen::condition_text(
        condition,
    ) + ") {\n"@ + plain.text + "    }\n"@);
}

} // verus!
