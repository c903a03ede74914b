//! what holds of the C for every program.

use crate::abi;
use crate::abi::{Found, Library};
use crate::arm;
use crate::arm::Flow;
use crate::codegen;
use crate::codegen::arm as lowering;
use crate::codegen::thumb as thumb_lowering;
use crate::codegen::vfp;
use crate::codegen::{Code, Names};
use crate::discover;
use crate::discover::{laws, Analysis, Function, Mode, Program};
use crate::sorted;
use crate::text;
use crate::thumb;
use vstd::prelude::*;

verus! {

/// the C for a branch or call by its address out of ARM code that runs
/// whatever the flags.
pub open spec fn arm_branch_code(
    out: Seq<char>,
    scope: Names,
    address: u32,
    target: u32,
    link: bool,
) -> Code {
    if link {
        codegen::call_code(out, scope, address.wrapping_add(4), target, false)
    } else {
        codegen::jump_code(out, scope, target, false)
    }
}

proof fn lemma_branch_space(op: u32)
    by (bit_vector)
    ensures
        op & 0x0E00_0000 == 0x0A00_0000 ==> (op >> 25) & 7 == 0b101,
        op & 0x0E00_0000 == 0x0A00_0000 && op >> 28 == 0xF ==> op & 0xFE00_0000 == 0xFA00_0000,
        op & 0x0F00_0000 == 0x0F00_0000 ==> (op >> 25) & 7 == 0b111 && op & (1u32 << 24) != 0,
{
}

/// the C for an ARM branch, call or svc goes where discovery took the
/// instruction to lead, under its condition.
pub proof fn law_arm_code_follows_flow(out: Seq<char>, scope: Names, address: u32, op: u32)
    ensures
        ({
            let code = lowering::lower_code(out, scope, address, op);
            let condition = op >> 28;
            match arm::flow_of(op, address) {
                Flow::Branch { target, link } => if condition == arm::ALWAYS {
                    code == arm_branch_code(out, scope, address, target, link)
                } else {
                    let begun = text::emitted(
                        out,
                        "    if ({}) {"@,
                        seq![codegen::condition_text(condition)],
                    );
                    let branch = arm_branch_code(begun, scope, address, target, link);
                    code == lowering::on(text::emitted(branch.text, "    }"@, Seq::empty()))
                },
                Flow::BranchToThumb { target } => code == codegen::call_code(
                    out,
                    scope,
                    address.wrapping_add(4),
                    target & !1,
                    true,
                ),
                Flow::Svc => condition == arm::ALWAYS ==> code == lowering::off(
                    text::emitted(
                        out,
                        "    SVC({}, 0x{}u);"@,
                        seq![
                            scope.at(address.wrapping_add(4)),
                            text::hex((op & 0x00FF_FFFF) as nat),
                        ],
                    ),
                ),
                _ => true,
            }
        }),
{
    lemma_branch_space(op);
}

/// execution can carry on past an ARM instruction that its condition may
/// skip.
pub proof fn law_skipped_code_carries_on(out: Seq<char>, scope: Names, address: u32, op: u32)
    requires
        op >> 28 < arm::ALWAYS,
    ensures
        lowering::lower_code(out, scope, address, op).on,
{
}

/// op looks like bx to the lowering without being one, which no instruction
/// does.
pub open spec fn is_stray_exchange(op: u32) -> bool {
    op & 0x0F90_00F0 == 0x0100_0010 && (op >> 21) & 3 != 3 && !arm::is_branch_exchange(op)
}

proof fn lemma_spaces(op: u32)
    by (bit_vector)
    ensures
        (op >> 25) & 7 <= 0b111,
        (op >> 25) & 7 == 0b101 ==> op & 0x0E00_0000 == 0x0A00_0000,
        op & 0xFE00_0000 == 0xFA00_0000 ==> op & 0x0E00_0000 == 0x0A00_0000,
        (op >> 25) & 7 == 0b111 && op & (1u32 << 24) != 0 ==> op & 0x0F00_0000 == 0x0F00_0000,
        (op >> 25) & 7 == 0b000 || (op >> 25) & 7 == 0b001 <==> op & 0x0C00_0000 == 0,
        (op >> 25) & 7 == 0b001 <==> op & 0x0C00_0000 == 0 && op & (1u32 << 25) != 0,
        (op >> 25) & 7 == 0b010 || (op >> 25) & 7 == 0b011 <==> op & 0x0C00_0000 == 0x0400_0000,
        (op >> 25) & 7 == 0b011 && op & (1u32 << 4) != 0 <==> op & 0x0E00_0010 == 0x0600_0010,
        (op >> 25) & 7 == 0b100 <==> op & 0x0E00_0000 == 0x0800_0000,
        (op & 0xFFFF) & (1u32 << 15) != 0 <==> op & (1u32 << 15) != 0,
        (op >> 25) & 7 == 0b000 && (op >> 23) & 3 == 0b10 && op & (1u32 << 20) == 0 && (op >> 4)
            & 0xF == 0b0001 <==> op & 0x0F90_00F0 == 0x0100_0010,
        op & 0x0F30_0E00 == 0x0D10_0A00 ==> (op >> 25) & 7 == 0b110,
        (op >> 23) & 3 == 0b10 <==> 8 <= (op >> 21) & 0xF <= 11,
{
}

/// execution carries on past the C of every ARM instruction that discovery takes
/// for one that does not change where it goes.
pub proof fn law_ordinary_code_carries_on(out: Seq<char>, scope: Names, address: u32, op: u32)
    requires
        arm::flow_of(op, address) is Other || arm::flow_of(op, address) is LiteralLoad,
        !is_stray_exchange(op),
    ensures
        lowering::lower_code(out, scope, address, op).on,
{
    lemma_spaces(op);
    if op >> 28 == arm::ALWAYS {
        let space = (op >> 25) & 7;
        if space == 0b000 {
            lemma_register_space_on(out, scope, address, op);
        } else if space == 0b001 {
            lemma_data_processing_on(out, scope, address, op);
        }
    }
}

proof fn lemma_data_processing_on(out: Seq<char>, scope: Names, a: u32, op: u32)
    requires
        8 <= (op >> 21) & 0xF <= 11 || (op >> 12) & 0xF != arm::PC,
    ensures
        lowering::data_processing_code(out, scope, a, op).on,
{
}

proof fn lemma_register_space_on(out: Seq<char>, scope: Names, a: u32, op: u32)
    requires
        op & 0x0C00_0000 == 0,
        (op >> 25) & 7 == 0b000,
        arm::flow_of(op, a) is Other,
        op >> 28 == arm::ALWAYS,
        !is_stray_exchange(op),
    ensures
        lowering::register_space_code(out, scope, a, op).on,
{
    lemma_spaces(op);
    if op & 0x90 != 0x90 && !((op >> 23) & 3 == 0b10 && !arm::bit(op, 20)) {
        lemma_data_processing_on(out, scope, a, op);
    }
}

proof fn lemma_leaving_spaces(op: u32)
    by (bit_vector)
    ensures
        op & 0x0FFF_FFF0 == 0x079F_F100 ==> (op >> 12) & 0xF == 15 && op & (1u32 << 20) != 0 && (op
            >> 25) & 7 == 0b011 && op & (1u32 << 4) == 0,
        op & 0x0FFF_FFD0 == 0x012F_FF10 ==> (op >> 25) & 7 == 0b000 && op & 0x90 != 0x90 && (op
            >> 23) & 3 == 0b10 && op & (1u32 << 20) == 0 && (op >> 21) & 3 == 0b01,
        op & 0x0FFF_FFD0 == 0x012F_FF10 && op & (1u32 << 5) == 0 ==> (op >> 4) & 0xF == 0b0001,
        op & 0x0FFF_FFD0 == 0x012F_FF10 && op & (1u32 << 5) != 0 ==> (op >> 4) & 0xF == 0b0011,
{
}

/// flow takes execution somewhere that only shows when the instruction runs,
/// and not back to the one after it.
pub open spec fn leaves(flow: Flow) -> bool {
    match flow {
        Flow::Return | Flow::IndirectJump | Flow::JumpTable | Flow::AddressTable { .. }
        | Flow::LoadPcLiteral { .. } => true,
        Flow::BranchRegister { link, .. } => !link,
        _ => false,
    }
}

/// the C of an ARM instruction that discovery takes to leave, whatever the
/// flags, leaves too, or is left to the interpreter.
pub proof fn law_leaving_code_leaves(out: Seq<char>, scope: Names, address: u32, op: u32)
    requires
        leaves(arm::flow_of(op, address)),
        op >> 28 == arm::ALWAYS,
    ensures
        !lowering::lower_code(out, scope, address, op).on || lowering::lower_code(
            out,
            scope,
            address,
            op,
        ) == vfp::interpret_code(out, scope, address, op),
{
    lemma_spaces(op);
    lemma_leaving_spaces(op);
}

/// where the C of an ARM instruction does not carry on, discovery takes the
/// instruction for one that leaves, but for an svc, which the host comes back
/// from.
pub proof fn law_code_that_leaves_is_taken_to(
    out: Seq<char>,
    scope: Names,
    address: u32,
    op: u32,
)
    requires
        !lowering::lower_code(out, scope, address, op).on,
        !is_stray_exchange(op),
    ensures
        arm::flow_of(op, address) is Svc || (arm::flow_of(op, address) matches Flow::Branch {
            link,
            ..
        } && !link) || leaves(arm::flow_of(op, address)),
{
    lemma_spaces(op);
    lemma_leaving_spaces(op);
    let flow = arm::flow_of(op, address);
    if flow is Other || flow is LiteralLoad {
        law_ordinary_code_carries_on(out, scope, address, op);
    }
    if flow is Branch || flow is BranchToThumb {
        law_arm_code_follows_flow(out, scope, address, op);
    }
}

proof fn lemma_thumb_space(op: u32)
    by (bit_vector)
    ensures
        op >> 11 == 0b11010 || op >> 11 == 0b11011 ==> op >> 13 == 0b110 && op & (1u32 << 12) != 0,
        op >> 11 == 0b11100 || op >> 11 == 0b11110 ==> op >> 13 == 0b111,
{
}

/// halfword looks like bx to the lowering without being one, which no
/// instruction does.
pub open spec fn is_stray_thumb_exchange(halfword: u16) -> bool {
    halfword & 0xFF80 == 0x4700 && halfword & 7 != 0
}

proof fn lemma_thumb_exits(op: u32)
    by (bit_vector)
    requires
        op <= 0xFFFF,
    ensures
        op >> 13 <= 0b111,
        op >> 11 == 0b01001 ==> op >> 13 == 0b010 && op & (1u32 << 11) != 0,
        op >> 13 == 0b010 && op & (1u32 << 12) == 0 && op & (1u32 << 11) == 0 && op & (1u32 << 10)
            != 0 ==> op & 0xFC00 == 0x4400,
        op & 0xFC00 == 0x4400 && (op & 7) | ((op >> 4) & 8) == 15 && ((op >> 8) & 3 == 0 || (op
            >> 8) & 3 == 2) ==> op & 0xFD87 == 0x4487,
        (op >> 8) & 3 <= 3,
        op & 0xFC00 == 0x4400 && (op >> 8) & 3 == 3 && op & (1u32 << 7) == 0 ==> op & 0xFF80
            == 0x4700,
        op & 0xFF80 == 0x4700 && op & 7 == 0 ==> op & 0xFF07 == 0x4700,
        op >> 13 == 0b101 && op & (1u32 << 12) != 0 && op & (1u32 << 11) != 0 && op & (1u32 << 8)
            != 0 && ((op >> 8) & 0xF == 0b1100 || (op >> 8) & 0xF == 0b1101) ==> op & 0xFF00
            == 0xBD00,
        op & (1u32 << 11) != 0 ==> (op >> 8) & 0xF != 0b0100 && (op >> 8) & 0xF != 0b0101,
        op >> 13 == 0b110 && op & (1u32 << 12) != 0 ==> op >> 11 == 0b11010 || op >> 11 == 0b11011,
{
}

/// execution carries on past the C of every Thumb instruction that discovery
/// takes for one that does not change where it goes.
pub proof fn law_ordinary_thumb_code_carries_on(
    out: Seq<char>,
    scope: Names,
    address: u32,
    halfword: u16,
    second: u16,
)
    requires
        ({
            let flow = thumb::flow_of(halfword, Some(second), address);
            flow is Other || flow is LiteralLoad
        }),
        !is_stray_thumb_exchange(halfword),
    ensures
        thumb_lowering::lower_code(out, scope, address, halfword as u32, second as u32).on,
{
    lemma_thumb_exits(halfword as u32);
}

proof fn lemma_leaving_thumb(op: u32)
    by (bit_vector)
    requires
        op <= 0xFFFF,
    ensures
        op & 0xFF00 == 0xBD00 ==> op >> 13 == 0b101 && op & (1u32 << 12) != 0 && (op >> 8) & 0xF
            == 0b1101 && op & (1u32 << 11) != 0 && op & (1u32 << 8) != 0,
        op & 0xFF07 == 0x4700 || op & 0xFD87 == 0x4487 ==> op >> 13 == 0b010 && op & (1u32 << 12)
            == 0 && op & (1u32 << 11) == 0 && op & (1u32 << 10) != 0,
        op & 0xFF07 == 0x4700 ==> (op >> 8) & 3 == 3,
        op & (1u32 << 7) == op & 0x80,
        op & 0xFD87 == 0x4487 ==> (op & 7) | ((op >> 4) & 8) == 15 && ((op >> 8) & 3 == 0 || (op
            >> 8) & 3 == 2),
{
}

/// the C of a Thumb instruction that discovery takes to leave leaves too.
pub proof fn law_leaving_thumb_code_leaves(
    out: Seq<char>,
    scope: Names,
    address: u32,
    halfword: u16,
    second: u16,
)
    requires
        leaves(thumb::flow_of(halfword, Some(second), address)),
    ensures
        !thumb_lowering::lower_code(out, scope, address, halfword as u32, second as u32).on,
{
    lemma_leaving_thumb(halfword as u32);
}

/// the C for a Thumb branch or call goes where discovery took the
/// instruction to lead, under its condition.
pub proof fn law_thumb_code_follows_flow(
    out: Seq<char>,
    scope: Names,
    address: u32,
    halfword: u16,
    second: u16,
)
    ensures
        ({
            let code = thumb_lowering::lower_code(
                out,
                scope,
                address,
                halfword as u32,
                second as u32,
            );
            let condition = thumb::condition_of(halfword);
            match thumb::flow_of(halfword, Some(second), address) {
                Flow::Branch { target, link } => if link {
                    code == codegen::call_code(
                        out,
                        scope,
                        address.wrapping_add(4) | 1,
                        target,
                        true,
                    )
                } else if condition == arm::ALWAYS {
                    code == codegen::jump_code(out, scope, target, true)
                } else {
                    let begun = text::emitted(
                        out,
                        "    if ({}) {"@,
                        seq![codegen::condition_text(condition)],
                    );
                    let jump = codegen::jump_code(begun, scope, target, true);
                    code == lowering::on(text::emitted(jump.text, "    }"@, Seq::empty()))
                },
                Flow::CallOtherMode { target } => code == codegen::call_code(
                    out,
                    scope,
                    address.wrapping_add(4) | 1,
                    target,
                    false,
                ),
                _ => true,
            }
        }),
{
    lemma_thumb_space(halfword as u32);
}

/// what the blocks from number on take from the budget when each of them
/// runs once.
pub open spec fn budget_from(instructions: Seq<u32>, labels: Set<u32>, number: nat) -> nat
    decreases instructions.len() - number,
{
    if number >= instructions.len() {
        0
    } else {
        let rest = budget_from(instructions, labels, number + 1);
        if labels.contains(instructions[number as int]) {
            rest + codegen::run_from(instructions, labels, number + 1) + 1
        } else {
            rest
        }
    }
}

proof fn lemma_budget(instructions: Seq<u32>, labels: Set<u32>, number: nat)
    requires
        number <= instructions.len(),
    ensures
        budget_from(instructions, labels, number) + codegen::run_from(
            instructions,
            labels,
            number,
        ) == instructions.len() - number,
    decreases instructions.len() - number,
{
    if number < instructions.len() {
        lemma_budget(instructions, labels, number + 1);
    }
}

proof fn lemma_next_is_higher(program: Program, mode: Mode, address: u32)
    requires
        laws::decodes(program, mode, address),
        program.text.base + program.text.bytes@.len() <= 0x1_0000_0000,
    ensures
        laws::next(program, mode, address) > address,
{
}

/// the blocks of a function that was found pay for each of its instructions
/// once.
pub proof fn law_instructions_are_paid_for_once(program: Program, analysis: Analysis, entry: u32)
    requires
        analysis@ == discover::findings(program).found,
        analysis.wf(),
        analysis.functions@.contains_key(entry),
        program.text.base + program.text.bytes@.len() <= 0x1_0000_0000,
    ensures
        ({
            let function = analysis.functions@[entry];
            budget_from(function.instructions@, function.labels@, 0)
                == function.instructions@.len()
        }),
{
    let function = analysis.functions@[entry];
    let known = function.known();
    let instructions = function.instructions@;
    let found = discover::findings(program).found;
    assert(found.functions[entry] == known);
    if instructions.len() > 0 && !function.labels@.contains(instructions[0]) {
        let first = instructions[0];
        assert(known.instructions.contains(first));
        laws::law_instructions_follow_one_another(program, entry, first);
        let before = choose|before: u32| #[trigger]
            known.instructions.contains(before) && laws::falls_onto(
                program,
                function.mode,
                before,
                first,
            );
        laws::law_instructions_are_code(program, entry, before);
        lemma_next_is_higher(program, function.mode, before);
        let i = instructions.index_of(before);
        assert(instructions[i] == before);
    }
    lemma_budget(instructions, function.labels@, 0);
}

/// the host can come back to the instruction after every call and every svc,
/// and to the start of every block, in any function that becomes C.
pub proof fn law_return_points_have_entries(
    program: Program,
    analysis: Analysis,
    entry: u32,
    address: u32,
)
    requires
        analysis@ == discover::findings(program).found,
        codegen::written(analysis.functions@).contains(entry),
        analysis.functions@[entry].instructions@.contains(address),
    ensures
        ({
            let functions = analysis.functions@;
            let mode = functions[entry].mode;
            let flow = laws::instruction(program, mode, address).flow;
            let after = laws::next(program, mode, address);
            &&& discover::ends_block(flow) && functions[entry].instructions@.contains(after)
                ==> codegen::entry_table(functions).contains_key(
                codegen::label_key(functions, entry, after),
            )
            &&& forall|target: u32| #[trigger]
                laws::goes_to(program, flow, address, target) && program.text.holds(target)
                    && functions[entry].instructions@.contains(target) ==> codegen::entry_table(
                    functions,
                ).contains_key(codegen::label_key(functions, entry, target))
        }),
{
    let functions = analysis.functions@;
    let known = functions[entry].known();
    let found = discover::findings(program).found;
    assert(found.functions[entry] == known);
    assert(forall|a: u32| #[trigger]
        known.instructions.contains(a) <==> functions[entry].instructions@.contains(a));
    assert(known.instructions.contains(address));
    laws::law_blocks_start_at_labels(program, entry, address);
    let flow = laws::instruction(program, functions[entry].mode, address).flow;
    let after = laws::next(program, functions[entry].mode, address);
    if discover::ends_block(flow) && functions[entry].instructions@.contains(after) {
        assert(known.instructions.contains(after));
        codegen::law_labels_have_entries(functions, entry, after);
    }
    assert forall|target: u32| #[trigger]
        laws::goes_to(program, flow, address, target) && program.text.holds(target)
            && functions[entry].instructions@.contains(target) implies codegen::entry_table(
        functions,
    ).contains_key(codegen::label_key(functions, entry, target)) by {
        assert(known.instructions.contains(target));
        codegen::law_labels_have_entries(functions, entry, target);
    }
}

/// the table of entries goes up and none occurs twice, so that a binary
/// search finds them.
pub proof fn law_entries_go_up(functions: Map<u32, Function>)
    ensures
        ({
            let keys = sorted::listing(codegen::entry_table(functions).dom());
            &&& sorted::ascending(keys)
            &&& forall|key: u32| #[trigger]
                keys.contains(key) <==> codegen::entry_table(functions).contains_key(key)
        }),
{
    sorted::law_listing(codegen::entry_table(functions).dom());
}

/// a host finds code for every label of every function that became C, in a
/// library with the table that was written for the executable.
pub proof fn law_labels_are_looked_up(
    library: Library,
    functions: Map<u32, Function>,
    entry: u32,
    label: u32,
)
    requires
        library.wf(),
        library.entries@ == sorted::listing(codegen::entry_table(functions).dom()),
        codegen::written(functions).contains(entry),
        functions[entry].labels@.contains(label),
    ensures
        ({
            let key = codegen::label_key(functions, entry, label);
            &&& library.found(key) matches Some(found) && found.module is None
            &&& forall|found: Option<Found>| #[trigger]
                library.answers(key, found) ==> found == library.found(key)
        }),
{
    codegen::law_labels_have_entries(functions, entry, label);
    law_entries_go_up(functions);
    let key = codegen::label_key(functions, entry, label);
    abi::law_executable_goes_first(library, key);
}

} // verus!
