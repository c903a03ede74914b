//! what holds of every analysis, whatever the program.

use crate::arm::{Flow, Instruction};
use crate::discover;
use crate::discover::{Byte, Known, Mode, Program, Search, Source, Walk};
use crate::image::Segment;
use vstd::prelude::*;

verus! {

/// the function at address waits to be looked into.
pub open spec fn queued(search: Search, address: u32) -> bool {
    exists|i: int| 0 <= i < search.queue.len() && (#[trigger] search.queue[i]).0 == address
}

/// the function at address was found, looked into or not.
pub open spec fn noticed(search: Search, address: u32) -> bool {
    search.found.functions.contains_key(address) || queued(search, address)
}

/// the text holds an instruction at address.
pub open spec fn decodes(program: Program, mode: Mode, address: u32) -> bool {
    &&& program.text.holds(address)
    &&& discover::instruction_at(program.text, address, mode) is Some
    &&& !(instruction(program, mode, address).flow is Undefined)
}

/// the instruction at address.
pub open spec fn instruction(program: Program, mode: Mode, address: u32) -> Instruction {
    (discover::instruction_at(program.text, address, mode)->0).0
}

/// the bytes the instruction at address takes.
pub open spec fn size(program: Program, mode: Mode, address: u32) -> u32 {
    (discover::instruction_at(program.text, address, mode)->0).1
}

/// where the instruction after the one at address would be.
pub open spec fn next(program: Program, mode: Mode, address: u32) -> u32 {
    address.wrapping_add(size(program, mode, address))
}

/// execution can go on to the instruction after this one.
pub open spec fn runs_on(instruction: Instruction) -> bool {
    !discover::leaves(instruction.flow) || (instruction.conditional() && !(
    instruction.flow is JumpTable))
}

/// slot is in the table of branches that starts at first.
pub open spec fn case_of(text: Segment, first: u32, slot: u32) -> bool
    decreases 0x1_0000_0000 - first,
{
    discover::is_case(text, first) && (slot == first || (first + 4 < 0x1_0000_0000 && case_of(
        text,
        (first + 4) as u32,
        slot,
    )))
}

/// one of the branches in the table that starts at first goes to target.
pub open spec fn case_at(text: Segment, first: u32, target: u32) -> bool
    decreases 0x1_0000_0000 - first,
{
    discover::is_case(text, first) && (discover::case_target(text, first) == target || (first + 4
        < 0x1_0000_0000 && case_at(text, (first + 4) as u32, target)))
}

/// target is in the table of up to left addresses that starts at slot.
pub open spec fn listed(text: Segment, slot: u32, left: nat, target: u32) -> bool
    decreases left,
{
    left > 0 && match text.word_at(slot) {
        Some(value) => text.holds(value & !1) && (value == target || listed(
            text,
            slot.wrapping_add(4),
            (left - 1) as nat,
            target,
        )),
        None => false,
    }
}

/// target is in the table that the instruction at address loads pc from.
pub open spec fn tabled(program: Program, flow: Flow, address: u32, target: u32) -> bool {
    flow matches Flow::AddressTable { index } && listed(
        program.text,
        address.wrapping_add(8),
        discover::table_size(program.text, address, index),
        target,
    )
}

/// the instruction at address leads to a function at target, by calling it
/// or through a table or literal that it loads pc from.
pub open spec fn finds(program: Program, flow: Flow, address: u32, target: u32) -> bool {
    match flow {
        Flow::Branch { target: callee, link } => link && callee == target,
        Flow::BranchToThumb { target: callee } => callee == target,
        Flow::CallOtherMode { target: callee } => callee == target,
        Flow::AddressTable { .. } => exists|value: u32| #[trigger]
            tabled(program, flow, address, value) && value & 3 != 0 && (
            discover::pointed_function(value) matches Some((pointed, _)) && pointed == target),
        Flow::LoadPcLiteral { literal } => program.text.word_at(literal) matches Some(value) && (
        discover::pointed_function(value) matches Some((pointed, _)) && pointed == target),
        _ => false,
    }
}

/// the instruction at address can go to target in its own function, as a
/// branch or by one of the cases of its table.
pub open spec fn goes_to(program: Program, flow: Flow, address: u32, target: u32) -> bool {
    match flow {
        Flow::Branch { target: place, link } => !link && place == target,
        Flow::JumpTable => case_of(program.text, address.wrapping_add(4), target) || case_at(
            program.text,
            address.wrapping_add(4),
            target,
        ),
        Flow::AddressTable { .. } => tabled(program, flow, address, target) && target & 3 == 0,
        _ => false,
    }
}

/// the byte at address is known for code or for a literal.
pub open spec fn reached(program: Program, map: Seq<Byte>, address: u32) -> bool {
    0 <= address - program.text.base < map.len() && map[address - program.text.base]
        != Byte::Unknown
}

/// every byte of the instruction at address is known for code.
pub open spec fn marked_code(program: Program, map: Seq<Byte>, mode: Mode, address: u32) -> bool {
    forall|i: int|
        0 <= i < map.len() && address <= program.text.base + i < address + size(
            program,
            mode,
            address,
        ) ==> #[trigger] map[i] == Byte::Code
}

/// what waits in before waits in after, in the same order, with more behind it.
pub open spec fn queue_extends(before: Search, after: Search) -> bool {
    &&& before.queue.len() <= after.queue.len()
    &&& forall|i: int|
        0 <= i < before.queue.len() ==> before.queue[i] == #[trigger] after.queue[i]
}

/// after only knows more than before.
pub open spec fn grows(before: Search, after: Search) -> bool {
    &&& queue_extends(before, after)
    &&& before.found.functions == after.found.functions
    &&& before.found.map.len() == after.found.map.len()
    &&& forall|i: int|
        0 <= i < before.found.map.len() ==> (before.found.map[i] == Byte::Code ==> (
        #[trigger] after.found.map[i]) == Byte::Code) && (before.found.map[i] != Byte::Unknown
            ==> after.found.map[i] != Byte::Unknown)
    &&& forall|address: u32| #[trigger] queued(before, address) ==> queued(after, address)
}

/// after is on the same path as before, with more found.
pub open spec fn extends(before: Walk, after: Walk) -> bool {
    &&& grows(before.search, after.search)
    &&& after.instructions == before.instructions
    &&& after.seen == before.seen
    &&& after.at == before.at
    &&& before.starts.subset_of(after.starts)
    &&& forall|block: u32| #[trigger]
        before.blocks.contains(block) ==> after.blocks.contains(block)
}

proof fn lemma_extends_through(a: Walk, b: Walk, c: Walk)
    requires
        extends(a, b),
        extends(b, c),
    ensures
        extends(a, c),
{
    assert forall|i: int| 0 <= i < a.search.found.map.len() implies (a.search.found.map[i]
        == Byte::Code ==> (#[trigger] c.search.found.map[i]) == Byte::Code) && (
    a.search.found.map[i] != Byte::Unknown ==> c.search.found.map[i] != Byte::Unknown) by {
        let middle = b.search.found.map[i];
    }
}

proof fn lemma_mark_grows(program: Program, search: Search, address: u32, size: u32, kind: Byte)
    requires
        kind != Byte::Unknown,
    ensures
        grows(search, search.mark(program, address, size, kind)),
{
    let after = search.mark(program, address, size, kind);
    assert(after.queue == search.queue);
    assert forall|a: u32| #[trigger] queued(search, a) implies queued(after, a) by {
        let i = choose|i: int| 0 <= i < search.queue.len() && (#[trigger] search.queue[i]).0 == a;
        assert(after.queue[i].0 == a);
    }
}

proof fn lemma_note(program: Program, search: Search, address: u32, mode: Mode, source: Source)
    ensures
        grows(search, search.note(program, address, mode, source)),
        program.text.holds(address) ==> noticed(
            search.note(program, address, mode, source),
            address,
        ),
{
    let after = search.note(program, address, mode, source);
    assert forall|a: u32| #[trigger] queued(search, a) implies queued(after, a) by {
        let i = choose|i: int| 0 <= i < search.queue.len() && (#[trigger] search.queue[i]).0 == a;
        assert(after.queue[i].0 == a);
    }
    if program.text.holds(address) && !search.found.functions.contains_key(address) {
        assert(after.queue[search.queue.len() as int].0 == address);
    }
}

proof fn lemma_lead(program: Program, search: Search, value: u32, source: Source)
    ensures
        grows(search, search.lead(program, value, source)),
        discover::pointed_function(value) matches Some((address, _)) ==> program.text.holds(address)
            ==> noticed(search.lead(program, value, source), address),
{
    if let Some((address, mode)) = discover::pointed_function(value) {
        lemma_note(program, search, address, mode, source);
    }
}

proof fn lemma_grows_through(a: Search, b: Search, c: Search)
    requires
        grows(a, b),
        grows(b, c),
    ensures
        grows(a, c),
{
    assert forall|i: int| 0 <= i < a.found.map.len() implies (a.found.map[i] == Byte::Code ==> (
    #[trigger] c.found.map[i]) == Byte::Code) && (a.found.map[i] != Byte::Unknown
        ==> c.found.map[i] != Byte::Unknown) by {
        let middle = b.found.map[i];
    }
}

proof fn lemma_block_extends(walk: Walk, target: u32)
    ensures
        extends(walk, walk.block(target)),
        walk.block(target).blocks.contains(target),
{
    let after = walk.block(target);
    assert forall|block: u32| #[trigger] walk.blocks.contains(block) implies after.blocks.contains(
        block,
    ) by {
        let i = walk.blocks.index_of(block);
        assert(after.blocks[i] == block);
    }
    assert(after.blocks[walk.blocks.len() as int] == target);
}

proof fn lemma_case_extends(program: Program, walk: Walk, slot: u32)
    ensures
        ({
            let after = discover::case_walk(program, walk, slot);
            let target = discover::case_target(program.text, slot);
            &&& extends(walk, after)
            &&& after.blocks.contains(slot) && after.starts.contains(slot)
            &&& program.text.holds(target) ==> after.blocks.contains(target)
                && after.starts.contains(target)
        }),
{
    let marked = walk.with_search(walk.search.mark(program, slot, 4, Byte::Code));
    let target = discover::case_target(program.text, slot);
    lemma_mark_grows(program, walk.search, slot, 4, Byte::Code);
    lemma_block_extends(marked, slot);
    lemma_extends_through(walk, marked, marked.block(slot));
    lemma_block_extends(marked.block(slot), target);
    lemma_extends_through(walk, marked.block(slot), marked.block(slot).block(target));
}

proof fn lemma_branch_table_extends(program: Program, walk: Walk, slot: u32)
    ensures
        extends(walk, discover::branch_table_walk(program, walk, slot)),
        forall|target: u32| #[trigger]
            case_of(program.text, slot, target) ==> {
                let after = discover::branch_table_walk(program, walk, slot);
                after.blocks.contains(target) && after.starts.contains(target)
            },
        forall|target: u32| #[trigger]
            case_at(program.text, slot, target) && program.text.holds(target) ==> {
                let after = discover::branch_table_walk(program, walk, slot);
                after.blocks.contains(target) && after.starts.contains(target)
            },
    decreases 0x1_0000_0000 - slot,
{
    if discover::is_case(program.text, slot) {
        let next = discover::case_walk(program, walk, slot);
        let after = discover::branch_table_walk(program, walk, slot);
        lemma_case_extends(program, walk, slot);
        if slot + 4 < 0x1_0000_0000 {
            lemma_branch_table_extends(program, next, (slot + 4) as u32);
            lemma_extends_through(walk, next, after);
        }
        assert forall|target: u32| #[trigger]
            case_of(program.text, slot, target) implies after.blocks.contains(target)
            && after.starts.contains(target) by {
            if target == slot {
                assert(next.starts.contains(slot));
            } else {
                assert(case_of(program.text, (slot + 4) as u32, target));
            }
        }
        assert forall|target: u32| #[trigger]
            case_at(program.text, slot, target) && program.text.holds(
                target,
            ) implies after.blocks.contains(target) && after.starts.contains(target) by {
            if target == discover::case_target(program.text, slot) {
                assert(next.starts.contains(target));
            } else {
                assert(case_at(program.text, (slot + 4) as u32, target));
            }
        }
    }
}

proof fn lemma_address_table_extends(program: Program, walk: Walk, slot: u32, left: nat)
    ensures
        extends(walk, discover::address_table_walk(program, walk, slot, left)),
        forall|target: u32| #[trigger]
            listed(program.text, slot, left, target) ==> {
                let after = discover::address_table_walk(program, walk, slot, left);
                if target & 3 == 0 {
                    after.blocks.contains(target) && after.starts.contains(target)
                } else {
                    discover::pointed_function(target) matches Some((address, _))
                        ==> program.text.holds(address) ==> noticed(after.search, address)
                }
            },
    decreases left,
{
    if left > 0 && program.text.word_at(slot) is Some {
        let target = program.text.word_at(slot)->0;
        if program.text.holds(target & !1) {
            let search = walk.search.mark(program, slot, 4, Byte::Literal);
            let marked = walk.with_search(search);
            lemma_mark_grows(program, walk.search, slot, 4, Byte::Literal);
            lemma_block_extends(marked, target);
            lemma_lead(program, search, target, Source::Pointer);
            let led = marked.with_search(search.lead(program, target, Source::Pointer));
            let after = if target & 3 == 0 {
                marked.block(target)
            } else {
                led
            };
            lemma_extends_through(walk, marked, after);
            lemma_address_table_extends(program, after, slot.wrapping_add(4), (left - 1) as nat);
            lemma_extends_through(
                walk,
                after,
                discover::address_table_walk(
                    program,
                    after,
                    slot.wrapping_add(4),
                    (left - 1) as nat,
                ),
            );
            let end = discover::address_table_walk(program, walk, slot, left);
            assert forall|other: u32| #[trigger]
                listed(program.text, slot, left, other) implies if other & 3 == 0 {
                end.blocks.contains(other) && end.starts.contains(other)
            } else {
                discover::pointed_function(other) matches Some((address, _))
                    ==> program.text.holds(address) ==> noticed(end.search, address)
            } by {
                if other == target {
                    if other & 3 == 0 {
                        assert(after.starts.contains(other));
                    }
                } else {
                    assert(listed(
                        program.text,
                        slot.wrapping_add(4),
                        (left - 1) as nat,
                        other,
                    ));
                }
            }
        }
    }
}

/// what an instruction leads to is only added.
proof fn lemma_flow_extends(program: Program, mode: Mode, walk: Walk, address: u32, flow: Flow)
    ensures
        extends(walk, discover::flow_walk(program, mode, walk, address, flow)),
        forall|target: u32| #[trigger]
            finds(program, flow, address, target) && program.text.holds(target) ==> noticed(
                discover::flow_walk(program, mode, walk, address, flow).search,
                target,
            ),
        forall|target: u32| #[trigger]
            goes_to(program, flow, address, target) && program.text.holds(target) ==> {
                let after = discover::flow_walk(program, mode, walk, address, flow);
                after.blocks.contains(target) && after.starts.contains(target)
            },
{
    let search = walk.search;
    match flow {
        Flow::Branch { target, link } => {
            lemma_note(program, search, target, mode, Source::Call);
            lemma_block_extends(walk, target);
        },
        Flow::BranchToThumb { target } => {
            lemma_note(program, search, target, Mode::Thumb, Source::Call);
        },
        Flow::CallOtherMode { target } => {
            lemma_note(program, search, target, mode.switched(), Source::Call);
        },
        Flow::JumpTable => {
            let counted = walk.with_search(search.count_table());
            lemma_same_queue(search, search.count_table());
            lemma_branch_table_extends(program, counted, address.wrapping_add(4));
            lemma_extends_through(
                walk,
                counted,
                discover::flow_walk(program, mode, walk, address, flow),
            );
        },
        Flow::AddressTable { index } => {
            let counted = walk.with_search(search.count_table());
            let count = discover::table_size(program.text, address, index);
            lemma_same_queue(search, search.count_table());
            lemma_address_table_extends(program, counted, address.wrapping_add(8), count);
            lemma_extends_through(
                walk,
                counted,
                discover::flow_walk(program, mode, walk, address, flow),
            );
        },
        Flow::LoadPcLiteral { literal } => {
            lemma_mark_grows(program, search, literal, 4, Byte::Literal);
            let marked = search.mark(program, literal, 4, Byte::Literal);
            if let Some(target) = program.text.word_at(literal) {
                lemma_lead(program, marked, target, Source::Pointer);
                lemma_grows_through(search, marked, marked.lead(program, target, Source::Pointer));
            }
        },
        Flow::LiteralLoad { literal, size } => {
            lemma_same_queue(search, search);
            lemma_mark_grows(program, search, literal, size, Byte::Literal);
            let marked = search.mark(program, literal, size, Byte::Literal);
            if let Some(value) = program.text.word_at(literal) {
                lemma_lead(program, marked, value, Source::Pointer);
                lemma_grows_through(search, marked, marked.lead(program, value, Source::Pointer));
            }
        },
        _ => {
            lemma_same_queue(search, discover::flow_walk(program, mode, walk, address, flow).search);
        },
    }
}

proof fn lemma_same_queue(before: Search, after: Search)
    requires
        before.queue == after.queue,
    ensures
        forall|address: u32| #[trigger] queued(before, address) ==> queued(after, address),
{
}

/// everything the instruction at address leads to has been seen to, or still
/// will be.
pub open spec fn followed(program: Program, mode: Mode, walk: Walk, address: u32) -> bool {
    let flow = instruction(program, mode, address).flow;
    let after = next(program, mode, address);
    &&& decodes(program, mode, address)
    &&& marked_code(program, walk.search.found.map, mode, address)
    &&& discover::ends_block(flow) ==> walk.starts.contains(after)
    &&& forall|target: u32| #[trigger]
        finds(program, flow, address, target) && program.text.holds(target) ==> noticed(
            walk.search,
            target,
        )
    &&& forall|target: u32| #[trigger]
        goes_to(program, flow, address, target) && program.text.holds(target)
            ==> walk.starts.contains(target) && pending(walk, target)
    &&& runs_on(instruction(program, mode, address)) && program.text.holds(after) ==> pending(
        walk,
        after,
    )
}

/// a path came through address, or still will.
pub open spec fn pending(walk: Walk, address: u32) -> bool {
    walk.seen.contains(address) || walk.blocks.contains(address) || walk.at == Some(address)
}

/// a path that came through address found an instruction there, or something
/// known not to be one.
pub open spec fn passed(program: Program, mode: Mode, walk: Walk, address: u32) -> bool {
    walk.instructions.contains(address) || reached(program, walk.search.found.map, address)
        || !decodes(program, mode, address)
}

/// the instruction at before goes on to the one at address without ending its
/// block.
pub open spec fn falls_onto(program: Program, mode: Mode, before: u32, address: u32) -> bool {
    next(program, mode, before) == address && !discover::ends_block(
        instruction(program, mode, before).flow,
    )
}

/// a path comes to address where a block starts, or off an instruction that
/// does not end its block.
pub open spec fn arrived(
    program: Program,
    mode: Mode,
    starts: Set<u32>,
    instructions: Set<u32>,
    address: u32,
) -> bool {
    starts.contains(address) || exists|before: u32| #[trigger]
        instructions.contains(before) && falls_onto(program, mode, before, address)
}

proof fn lemma_arrived_stays(
    program: Program,
    mode: Mode,
    before: Walk,
    after: Walk,
    address: u32,
)
    requires
        arrived(program, mode, before.starts, before.instructions, address),
        before.starts.subset_of(after.starts),
        before.instructions.subset_of(after.instructions),
    ensures
        arrived(program, mode, after.starts, after.instructions, address),
{
    if !before.starts.contains(address) {
        let other = choose|other: u32| #[trigger]
            before.instructions.contains(other) && falls_onto(program, mode, other, address);
        assert(after.instructions.contains(other));
    }
}

/// every path still to be followed starts a block.
pub open spec fn blocks_started(walk: Walk) -> bool {
    forall|i: int| 0 <= i < walk.blocks.len() ==> walk.starts.contains(#[trigger] walk.blocks[i])
}

proof fn lemma_branch_table_started(program: Program, walk: Walk, slot: u32)
    requires
        blocks_started(walk),
    ensures
        blocks_started(discover::branch_table_walk(program, walk, slot)),
    decreases 0x1_0000_0000 - slot,
{
    if discover::is_case(program.text, slot) && slot + 4 < 0x1_0000_0000 {
        lemma_branch_table_started(
            program,
            discover::case_walk(program, walk, slot),
            (slot + 4) as u32,
        );
    }
}

proof fn lemma_address_table_started(program: Program, walk: Walk, slot: u32, left: nat)
    requires
        blocks_started(walk),
    ensures
        blocks_started(discover::address_table_walk(program, walk, slot, left)),
    decreases left,
{
    if left > 0 {
        if let Some(target) = program.text.word_at(slot) {
            let search = walk.search.mark(program, slot, 4, Byte::Literal);
            let after = if target & 3 == 0 {
                walk.with_search(search).block(target)
            } else {
                walk.with_search(search.lead(program, target, Source::Pointer))
            };
            lemma_address_table_started(program, after, slot.wrapping_add(4), (left - 1) as nat);
        }
    }
}

proof fn lemma_flow_started(program: Program, mode: Mode, walk: Walk, address: u32, flow: Flow)
    requires
        blocks_started(walk),
    ensures
        blocks_started(discover::flow_walk(program, mode, walk, address, flow)),
{
    let counted = walk.with_search(walk.search.count_table());
    match flow {
        Flow::JumpTable => {
            lemma_branch_table_started(program, counted, address.wrapping_add(4));
        },
        Flow::AddressTable { index } => {
            let count = discover::table_size(program.text, address, index);
            lemma_address_table_started(program, counted, address.wrapping_add(8), count);
        },
        _ => {},
    }
}

/// what holds all along a walk of where its paths come from.
pub open spec fn well_led(program: Program, mode: Mode, walk: Walk) -> bool {
    &&& blocks_started(walk)
    &&& walk.at matches Some(address) ==> arrived(
        program,
        mode,
        walk.starts,
        walk.instructions,
        address,
    )
    &&& forall|address: u32| #[trigger]
        walk.instructions.contains(address) ==> arrived(
            program,
            mode,
            walk.starts,
            walk.instructions,
            address,
        )
}

proof fn lemma_step_well_led(program: Program, mode: Mode, walk: Walk)
    requires
        well_led(program, mode, walk),
    ensures
        well_led(program, mode, discover::walk_step(program, mode, walk)),
{
    reveal(discover::walk_step);
    let after = discover::walk_step(program, mode, walk);
    if let Some(address) = walk.at {
        if program.text.holds(address) && !walk.seen.contains(address) && walk.search.byte(
            program,
            address,
        ) != Byte::Literal && decodes(program, mode, address) {
            let seen = Walk { seen: walk.seen.insert(address), ..walk };
            let flow = instruction(program, mode, address).flow;
            let decoded = Walk {
                search: seen.search.mark(
                    program,
                    address,
                    size(program, mode, address),
                    Byte::Code,
                ),
                instructions: seen.instructions.insert(address),
                ..seen
            };
            let split = if discover::ends_block(flow) {
                decoded.begins_block(next(program, mode, address))
            } else {
                decoded
            };
            lemma_led(program, mode, seen, address);
            assert(blocks_started(split));
            lemma_flow_started(program, mode, split, address, flow);
            assert(after.starts == led(program, mode, seen, address).starts);
            assert(after.blocks == led(program, mode, seen, address).blocks);
            assert forall|a: u32| #[trigger] after.instructions.contains(a) implies arrived(
                program,
                mode,
                after.starts,
                after.instructions,
                a,
            ) by {
                lemma_arrived_stays(program, mode, walk, after, a);
            }
            if after.at is Some && !discover::ends_block(flow) {
                assert(after.instructions.contains(address));
                assert(falls_onto(program, mode, address, after.at->0));
            }
        }
    } else if walk.blocks.len() > 0 {
        assert(walk.starts.contains(walk.blocks[walk.blocks.len() - 1]));
        assert forall|i: int| 0 <= i < after.blocks.len() implies after.starts.contains(
            #[trigger] after.blocks[i],
        ) by {
            assert(walk.starts.contains(walk.blocks[i]));
        }
    }
}

proof fn lemma_steps_well_led(program: Program, mode: Mode, walk: Walk, count: nat)
    requires
        well_led(program, mode, walk),
    ensures
        well_led(program, mode, discover::walk_steps(program, mode, walk, count)),
    decreases count,
{
    if count > 0 {
        lemma_steps_well_led(program, mode, walk, (count - 1) as nat);
        lemma_step_well_led(
            program,
            mode,
            discover::walk_steps(program, mode, walk, (count - 1) as nat),
        );
    }
}

/// what holds all along a walk from entry.
pub open spec fn on_course(program: Program, mode: Mode, entry: u32, walk: Walk) -> bool {
    &&& walk.search.found.map.len() == program.text.bytes@.len()
    &&& walk.instructions.subset_of(walk.seen)
    &&& forall|address: u32| #[trigger]
        walk.instructions.contains(address) ==> followed(program, mode, walk, address)
    &&& forall|address: u32| #[trigger]
        walk.seen.contains(address) ==> passed(program, mode, walk, address)
    &&& walk.starts.contains(entry)
    &&& program.text.holds(entry) ==> pending(walk, entry)
}

/// the walk past an instruction, before its path moves on.
spec fn led(program: Program, mode: Mode, walk: Walk, address: u32) -> Walk {
    let decoded = Walk {
        search: walk.search.mark(program, address, size(program, mode, address), Byte::Code),
        instructions: walk.instructions.insert(address),
        ..walk
    };
    let flow = instruction(program, mode, address).flow;
    let split = if discover::ends_block(flow) {
        decoded.begins_block(next(program, mode, address))
    } else {
        decoded
    };
    discover::flow_walk(program, mode, split, address, flow)
}

/// past an instruction a walk has only more.
proof fn lemma_led(program: Program, mode: Mode, walk: Walk, address: u32)
    requires
        decodes(program, mode, address),
    ensures
        ({
            let after = led(program, mode, walk, address);
            let flow = instruction(program, mode, address).flow;
            &&& grows(walk.search, after.search)
            &&& after.instructions == walk.instructions.insert(address)
            &&& after.seen == walk.seen
            &&& after.at == walk.at
            &&& walk.starts.subset_of(after.starts)
            &&& forall|block: u32| #[trigger]
                walk.blocks.contains(block) ==> after.blocks.contains(block)
            &&& marked_code(program, after.search.found.map, mode, address)
            &&& discover::ends_block(flow) ==> after.starts.contains(next(program, mode, address))
            &&& forall|target: u32| #[trigger]
                finds(program, flow, address, target) && program.text.holds(target) ==> noticed(
                    after.search,
                    target,
                )
            &&& forall|target: u32| #[trigger]
                goes_to(program, flow, address, target) && program.text.holds(target)
                    ==> after.blocks.contains(target) && after.starts.contains(target)
        }),
{
    let flow = instruction(program, mode, address).flow;
    let decoded = Walk {
        search: walk.search.mark(program, address, size(program, mode, address), Byte::Code),
        instructions: walk.instructions.insert(address),
        ..walk
    };
    let split = if discover::ends_block(flow) {
        decoded.begins_block(next(program, mode, address))
    } else {
        decoded
    };
    let after = led(program, mode, walk, address);
    lemma_mark_grows(program, walk.search, address, size(program, mode, address), Byte::Code);
    lemma_flow_extends(program, mode, split, address, flow);
    lemma_grows_through(walk.search, split.search, after.search);
    assert forall|i: int|
        0 <= i < after.search.found.map.len() && address <= program.text.base + i < address + size(
            program,
            mode,
            address,
        ) implies #[trigger] after.search.found.map[i] == Byte::Code by {
        assert(split.search.found.map[i] == Byte::Code);
    }
}

/// what an instruction led to stays seen to as the search goes on.
proof fn lemma_followed_stays(program: Program, mode: Mode, before: Walk, after: Walk, address: u32)
    requires
        followed(program, mode, before, address),
        grows(before.search, after.search),
        before.starts.subset_of(after.starts),
        forall|a: u32| #[trigger]
            pending(before, a) && program.text.holds(a) ==> pending(after, a),
    ensures
        followed(program, mode, after, address),
{
    let map = after.search.found.map;
    assert forall|i: int|
        0 <= i < map.len() && address <= program.text.base + i < address + size(
            program,
            mode,
            address,
        ) implies #[trigger] map[i] == Byte::Code by {
        assert(before.search.found.map[i] == Byte::Code);
    }
}

proof fn lemma_passed_stays(program: Program, mode: Mode, before: Walk, after: Walk, address: u32)
    requires
        passed(program, mode, before, address),
        grows(before.search, after.search),
        before.instructions.subset_of(after.instructions),
    ensures
        passed(program, mode, after, address),
{
    if reached(program, before.search.found.map, address) {
        let at = after.search.found.map[address - program.text.base];
    }
}

/// a walk stays on course.
proof fn lemma_step_on_course(program: Program, mode: Mode, entry: u32, walk: Walk)
    requires
        on_course(program, mode, entry, walk),
    ensures
        on_course(program, mode, entry, discover::walk_step(program, mode, walk)),
        walk.search.found.functions == discover::walk_step(
            program,
            mode,
            walk,
        ).search.found.functions,
        grows(walk.search, discover::walk_step(program, mode, walk).search),
{
    reveal(discover::walk_step);
    let after = discover::walk_step(program, mode, walk);
    lemma_same_queue(walk.search, walk.search);
    match walk.at {
        None => {
            if walk.blocks.len() > 0 {
                assert forall|a: u32| #[trigger] pending(walk, a) implies pending(after, a) by {
                    if walk.blocks.contains(a) {
                        let i = walk.blocks.index_of(a);
                        if i < walk.blocks.len() - 1 {
                            assert(after.blocks[i] == a);
                        }
                    }
                }
            }
        },
        Some(address) => {
            if program.text.holds(address) && !walk.seen.contains(address) {
                if walk.search.byte(program, address) != Byte::Literal && decodes(
                    program,
                    mode,
                    address,
                ) {
                    let seen = Walk { seen: walk.seen.insert(address), ..walk };
                    lemma_led(program, mode, seen, address);
                    assert(after.search == led(program, mode, seen, address).search);
                    assert(after.blocks == led(program, mode, seen, address).blocks);
                } else {
                    lemma_same_queue(walk.search, after.search);
                }
            }
            assert forall|a: u32| #[trigger] pending(walk, a) && program.text.holds(
                a,
            ) implies pending(after, a) by {}
        },
    }
    assert(grows(walk.search, after.search));
    assert forall|a: u32| #[trigger] after.instructions.contains(a) implies followed(
        program,
        mode,
        after,
        a,
    ) by {
        if walk.instructions.contains(a) {
            lemma_followed_stays(program, mode, walk, after, a);
        }
    }
    assert forall|a: u32| #[trigger] after.seen.contains(a) implies passed(
        program,
        mode,
        after,
        a,
    ) by {
        if walk.seen.contains(a) {
            lemma_passed_stays(program, mode, walk, after, a);
        }
    }
}

/// every step leaves fewer addresses or fewer paths to see to.
proof fn lemma_step_nears_end(program: Program, mode: Mode, walk: Walk)
    requires
        !walk.done(),
    ensures
        ({
            let after = discover::walk_step(program, mode, walk);
            ||| after.seen.len() == walk.seen.len() + 1
            ||| after.seen == walk.seen && work(after) < work(walk)
        }),
{
    reveal(discover::walk_step);
    discover::lemma_addresses_finite(walk.seen);
    if let Some(address) = walk.at {
        if program.text.holds(address) && !walk.seen.contains(address) && decodes(
            program,
            mode,
            address,
        ) {
            let seen = Walk { seen: walk.seen.insert(address), ..walk };
            lemma_led(program, mode, seen, address);
            assert(walk.search.byte(program, address) != Byte::Literal ==> discover::walk_step(
                program,
                mode,
                walk,
            ).seen == led(program, mode, seen, address).seen);
        }
    }
}

/// the paths still to see to.
pub open spec fn work(walk: Walk) -> nat {
    2 * walk.blocks.len() + if walk.at is Some {
        1nat
    } else {
        0nat
    }
}

proof fn lemma_steps_shift(program: Program, mode: Mode, walk: Walk, count: nat)
    ensures
        discover::walk_steps(program, mode, walk, count + 1) == discover::walk_steps(
            program,
            mode,
            discover::walk_step(program, mode, walk),
            count,
        ),
    decreases count,
{
    reveal_with_fuel(discover::walk_steps, 2);
    if count > 0 {
        lemma_steps_shift(program, mode, walk, (count - 1) as nat);
    }
}

/// every walk comes to an end.
pub proof fn law_walk_ends(program: Program, mode: Mode, walk: Walk)
    ensures
        exists|count: nat| #[trigger] discover::walk_steps(program, mode, walk, count).done(),
        discover::walked(program, mode, walk).done(),
    decreases 0x1_0000_0000 - walk.seen.len(), work(walk),
{
    discover::lemma_addresses_finite(walk.seen);
    if walk.done() {
        assert(discover::walk_steps(program, mode, walk, 0).done());
    } else {
        let after = discover::walk_step(program, mode, walk);
        lemma_step_nears_end(program, mode, walk);
        discover::lemma_addresses_finite(after.seen);
        law_walk_ends(program, mode, after);
        let count = choose|count: nat| #[trigger]
            discover::walk_steps(program, mode, after, count).done();
        lemma_steps_shift(program, mode, walk, count);
        assert(discover::walk_steps(program, mode, walk, count + 1).done());
    }
}

proof fn lemma_steps_on_course(program: Program, mode: Mode, entry: u32, walk: Walk, count: nat)
    requires
        on_course(program, mode, entry, walk),
    ensures
        on_course(program, mode, entry, discover::walk_steps(program, mode, walk, count)),
        grows(walk.search, discover::walk_steps(program, mode, walk, count).search),
    decreases count,
{
    lemma_same_queue(walk.search, walk.search);
    if count > 0 {
        let before = discover::walk_steps(program, mode, walk, (count - 1) as nat);
        lemma_steps_on_course(program, mode, entry, walk, (count - 1) as nat);
        lemma_step_on_course(program, mode, entry, before);
        lemma_grows_through(
            walk.search,
            before.search,
            discover::walk_step(program, mode, before).search,
        );
    }
}

/// the address was reached, unless there is no instruction there.
pub open spec fn seen_to(program: Program, map: Seq<Byte>, mode: Mode, address: u32) -> bool {
    reached(program, map, address) || !decodes(program, mode, address)
}

/// what holds of an instruction of a function the search looked into.
pub open spec fn instruction_settled(
    program: Program,
    search: Search,
    function: Known,
    address: u32,
) -> bool {
    let mode = function.mode;
    let map = search.found.map;
    let flow = instruction(program, mode, address).flow;
    let after = next(program, mode, address);
    &&& decodes(program, mode, address)
    &&& marked_code(program, map, mode, address)
    &&& forall|target: u32| #[trigger]
        finds(program, flow, address, target) && program.text.holds(target) ==> noticed(
            search,
            target,
        )
    &&& discover::ends_block(flow) && function.instructions.contains(after)
        ==> function.labels.contains(after)
    &&& forall|target: u32| #[trigger]
        goes_to(program, flow, address, target) && program.text.holds(target) ==> seen_to(
            program,
            map,
            mode,
            target,
        ) && (function.instructions.contains(target) ==> function.labels.contains(target))
    &&& runs_on(instruction(program, mode, address)) && program.text.holds(after) ==> seen_to(
        program,
        map,
        mode,
        after,
    )
}

/// what holds of a function the search looked into.
pub open spec fn settled(program: Program, search: Search, entry: u32, function: Known) -> bool {
    &&& function.labels.subset_of(function.instructions)
    &&& function.labels.contains(entry) <==> function.instructions.contains(entry)
    &&& forall|address: u32| #[trigger]
        function.instructions.contains(address) ==> arrived(
            program,
            function.mode,
            function.labels,
            function.instructions,
            address,
        )
    &&& program.text.holds(entry) ==> seen_to(program, search.found.map, function.mode, entry)
    &&& forall|address: u32| #[trigger]
        function.instructions.contains(address) ==> instruction_settled(
            program,
            search,
            function,
            address,
        )
}

/// what holds all along a search.
pub open spec fn consistent(program: Program, search: Search) -> bool {
    &&& search.found.map.len() == program.text.bytes@.len()
    &&& forall|entry: u32| #[trigger]
        search.found.functions.contains_key(entry) ==> settled(
            program,
            search,
            entry,
            search.found.functions[entry],
        )
}

/// after knows at least what before does, and has not lost a function.
pub open spec fn progresses(before: Search, after: Search) -> bool {
    &&& before.found.map.len() == after.found.map.len()
    &&& forall|i: int|
        0 <= i < before.found.map.len() ==> (before.found.map[i] == Byte::Code ==> (
        #[trigger] after.found.map[i]) == Byte::Code) && (before.found.map[i] != Byte::Unknown
            ==> after.found.map[i] != Byte::Unknown)
    &&& forall|address: u32| #[trigger] noticed(before, address) ==> noticed(after, address)
}

proof fn lemma_progresses_through(a: Search, b: Search, c: Search)
    requires
        progresses(a, b),
        progresses(b, c),
    ensures
        progresses(a, c),
{
    assert forall|i: int| 0 <= i < a.found.map.len() implies (a.found.map[i] == Byte::Code ==> (
    #[trigger] c.found.map[i]) == Byte::Code) && (a.found.map[i] != Byte::Unknown
        ==> c.found.map[i] != Byte::Unknown) by {
        let middle = b.found.map[i];
    }
}

proof fn lemma_settled_stays(
    program: Program,
    before: Search,
    after: Search,
    entry: u32,
    function: Known,
)
    requires
        settled(program, before, entry, function),
        progresses(before, after),
    ensures
        settled(program, after, entry, function),
{
    assert forall|address: u32| reached(program, before.found.map, address) implies #[trigger] reached(
        program,
        after.found.map,
        address,
    ) by {
        let at = after.found.map[address - program.text.base];
    }
    assert forall|address: u32| #[trigger]
        function.instructions.contains(address) implies instruction_settled(
        program,
        after,
        function,
        address,
    ) by {
        assert(instruction_settled(program, before, function, address));
        let map = after.found.map;
        assert forall|i: int|
            0 <= i < map.len() && address <= program.text.base + i < address + size(
                program,
                function.mode,
                address,
            ) implies #[trigger] map[i] == Byte::Code by {
            assert(before.found.map[i] == Byte::Code);
        }
    }
}

/// a search stays consistent.
proof fn lemma_search_step_consistent(program: Program, search: Search)
    requires
        consistent(program, search),
    ensures
        consistent(program, discover::search_step(program, search)),
        progresses(search, discover::search_step(program, search)),
{
    let after = discover::search_step(program, search);
    if search.queue.len() > 0 {
        let (entry, mode, source) = search.queue[0];
        let rest = Search { queue: search.queue.drop_first(), ..search };
        assert forall|a: u32| #[trigger] queued(search, a) && a != entry implies queued(rest, a) by {
            let i = choose|i: int|
                0 <= i < search.queue.len() && (#[trigger] search.queue[i]).0 == a;
            assert(rest.queue[i - 1].0 == a);
        }
        if !search.found.functions.contains_key(entry) {
            let start = discover::walk_from(rest, entry);
            let walk = discover::walked(program, mode, start);
            let function = Known {
                source,
                mode,
                instructions: walk.instructions,
                labels: walk.starts.intersect(walk.instructions),
            };
            assert(start.blocks[0] == entry);
            law_walk_ends(program, mode, start);
            let count = choose|count: nat| #[trigger]
                discover::walk_steps(program, mode, start, count).done();
            lemma_steps_on_course(program, mode, entry, start, count);
            lemma_steps_well_led(program, mode, start, count);
            assert forall|a: u32| #[trigger] queued(rest, a) implies queued(after, a) by {
                assert(queued(walk.search, a));
                lemma_same_queue(walk.search, after);
            }
            assert forall|a: u32| #[trigger] noticed(search, a) implies noticed(after, a) by {}
            assert(progresses(search, after));
            assert forall|a: u32| #[trigger] noticed(walk.search, a) implies noticed(after, a) by {
                if queued(walk.search, a) {
                    lemma_same_queue(walk.search, after);
                }
            }
            lemma_walk_settles(program, mode, entry, walk, after, function);
        }
        assert forall|e: u32| #[trigger] after.found.functions.contains_key(e) implies settled(
            program,
            after,
            e,
            after.found.functions[e],
        ) by {
            if search.found.functions.contains_key(e) {
                lemma_settled_stays(program, search, after, e, search.found.functions[e]);
            }
        }
    }
}

/// the function of a walk that is over is settled.
proof fn lemma_walk_settles(
    program: Program,
    mode: Mode,
    entry: u32,
    walk: Walk,
    after: Search,
    function: Known,
)
    requires
        on_course(program, mode, entry, walk),
        well_led(program, mode, walk),
        walk.done(),
        function.mode == mode,
        function.instructions == walk.instructions,
        function.labels == walk.starts.intersect(walk.instructions),
        after.found.map == walk.search.found.map,
        forall|a: u32| #[trigger] noticed(walk.search, a) ==> noticed(after, a),
    ensures
        settled(program, after, entry, function),
{
    let map = after.found.map;
    assert forall|a: u32| #[trigger] pending(walk, a) && program.text.holds(a) implies seen_to(
        program,
        map,
        mode,
        a,
    ) by {
        assert(walk.seen.contains(a));
        assert(passed(program, mode, walk, a));
        if walk.instructions.contains(a) {
            assert(followed(program, mode, walk, a));
            lemma_instruction_reached(program, map, mode, a);
        }
    }
    assert forall|a: u32| #[trigger]
        function.instructions.contains(a) implies instruction_settled(
        program,
        after,
        function,
        a,
    ) by {
        assert(followed(program, mode, walk, a));
    }
}

proof fn lemma_instruction_reached(program: Program, map: Seq<Byte>, mode: Mode, address: u32)
    requires
        decodes(program, mode, address),
        marked_code(program, map, mode, address),
        map.len() == program.text.bytes@.len(),
    ensures
        reached(program, map, address),
{
    let at = address - program.text.base;
    assert(0 <= at < map.len());
    assert(size(program, mode, address) >= 2);
    assert(map[at] == Byte::Code);
}

proof fn lemma_search_shift(program: Program, search: Search, count: nat)
    ensures
        discover::search_steps(program, search, count + 1) == discover::search_steps(
            program,
            discover::search_step(program, search),
            count,
        ),
    decreases count,
{
    reveal_with_fuel(discover::search_steps, 2);
    if count > 0 {
        lemma_search_shift(program, search, (count - 1) as nat);
    }
}

/// every search comes to an end, with nothing left in the queue.
pub proof fn law_search_ends(program: Program, search: Search)
    ensures
        exists|count: nat| #[trigger]
            discover::search_steps(program, search, count).queue.len() == 0,
        discover::searched(program, search).queue.len() == 0,
    decreases 0x1_0000_0000 - search.found.functions.dom().len(), search.queue.len(),
{
    if search.queue.len() == 0 {
        assert(discover::search_steps(program, search, 0).queue.len() == 0);
    } else {
        let after = discover::search_step(program, search);
        let (entry, mode, source) = search.queue[0];
        let rest = Search { queue: search.queue.drop_first(), ..search };
        discover::lemma_walk_keeps_functions(program, mode, rest, entry);
        discover::lemma_addresses_finite(search.found.functions.dom());
        discover::lemma_addresses_finite(after.found.functions.dom());
        if !search.found.functions.contains_key(entry) {
            assert(after.found.functions.dom() =~= search.found.functions.dom().insert(entry));
        }
        law_search_ends(program, after);
        let count = choose|count: nat| #[trigger]
            discover::search_steps(program, after, count).queue.len() == 0;
        lemma_search_shift(program, search, count);
        assert(discover::search_steps(program, search, count + 1).queue.len() == 0);
    }
}

proof fn lemma_steps_consistent(program: Program, search: Search, count: nat)
    requires
        consistent(program, search),
    ensures
        consistent(program, discover::search_steps(program, search, count)),
        progresses(search, discover::search_steps(program, search, count)),
    decreases count,
{
    if count > 0 {
        let before = discover::search_steps(program, search, (count - 1) as nat);
        lemma_steps_consistent(program, search, (count - 1) as nat);
        lemma_search_step_consistent(program, before);
        lemma_progresses_through(search, before, discover::search_step(program, before));
    }
}

/// a seed leads to a function.
pub open spec fn landing(program: Program, seed: (u32, Source)) -> Option<u32> {
    if seed.1 is Entry {
        Some(seed.0)
    } else {
        match discover::pointed_function(seed.0) {
            Some((address, _)) => if program.text.holds(address) {
                Some(address)
            } else {
                None
            },
            None => None,
        }
    }
}

proof fn lemma_seed(program: Program, search: Search, seed: (u32, Source))
    requires
        consistent(program, search),
    ensures
        consistent(program, discover::seed(program, search, seed)),
        progresses(search, discover::seed(program, search, seed)),
        landing(program, seed) matches Some(address) ==> noticed(
            discover::seed(program, search, seed),
            address,
        ),
{
    let after = discover::seed(program, search, seed);
    if seed.1 is Entry {
        assert forall|a: u32| #[trigger] queued(search, a) implies queued(after, a) by {
            let i = choose|i: int|
                0 <= i < search.queue.len() && (#[trigger] search.queue[i]).0 == a;
            assert(after.queue[i].0 == a);
        }
        assert(after.queue[search.queue.len() as int].0 == seed.0);
    } else {
        lemma_lead(program, search, seed.0, seed.1);
    }
    assert(progresses(search, after));
    assert forall|e: u32| #[trigger] after.found.functions.contains_key(e) implies settled(
        program,
        after,
        e,
        after.found.functions[e],
    ) by {
        lemma_settled_stays(program, search, after, e, search.found.functions[e]);
    }
}

proof fn lemma_seeded(program: Program, search: Search, pointers: bool, count: nat)
    requires
        consistent(program, search),
        count <= program.seeds@.len(),
    ensures
        consistent(program, discover::seeded(program, search, pointers, count)),
        progresses(search, discover::seeded(program, search, pointers, count)),
        forall|i: int|
            0 <= i < count && ((#[trigger] program.seeds@[i]).1 is Pointer) == pointers ==> (
            landing(program, program.seeds@[i]) matches Some(address) ==> noticed(
                discover::seeded(program, search, pointers, count),
                address,
            )),
    decreases count,
{
    if count > 0 {
        let before = discover::seeded(program, search, pointers, (count - 1) as nat);
        lemma_seeded(program, search, pointers, (count - 1) as nat);
        lemma_seed(program, before, program.seeds@[count - 1]);
        lemma_progresses_through(
            search,
            before,
            discover::seed(program, before, program.seeds@[count - 1]),
        );
    }
}

/// the findings are consistent, and every seed is among them.
proof fn lemma_findings(program: Program)
    ensures
        ({
            let search = discover::findings(program);
            &&& consistent(program, search)
            &&& search.queue.len() == 0
            &&& forall|i: int|
                0 <= i < program.seeds@.len() ==> (landing(
                    program,
                    #[trigger] program.seeds@[i],
                ) matches Some(address) ==> search.found.functions.contains_key(address))
        }),
{
    let count = program.seeds@.len();
    let start = discover::nothing_found(program.text.bytes@.len());
    let first = discover::seeded(program, start, false, count);
    let known = discover::searched(program, first);
    let second = discover::seeded(program, known, true, count);
    let search = discover::searched(program, second);
    lemma_seeded(program, start, false, count);
    law_search_ends(program, first);
    lemma_steps_consistent(
        program,
        first,
        choose|count: nat| #[trigger]
            discover::search_steps(program, first, count).queue.len() == 0,
    );
    lemma_seeded(program, known, true, count);
    law_search_ends(program, second);
    lemma_steps_consistent(
        program,
        second,
        choose|count: nat| #[trigger]
            discover::search_steps(program, second, count).queue.len() == 0,
    );
    lemma_progresses_through(first, known, second);
    lemma_progresses_through(first, second, search);
    assert forall|i: int| 0 <= i < program.seeds@.len() implies (landing(
        program,
        #[trigger] program.seeds@[i],
    ) matches Some(address) ==> search.found.functions.contains_key(address)) by {
        if let Some(address) = landing(program, program.seeds@[i]) {
            if program.seeds@[i].1 is Pointer {
                assert(noticed(second, address));
            } else {
                assert(noticed(first, address));
            }
            assert(noticed(search, address));
        }
    }
}

/// the map says of every byte of the text what it is.
pub proof fn law_map_covers_text(program: Program)
    ensures
        discover::findings(program).found.map.len() == program.text.bytes@.len(),
{
    lemma_findings(program);
}

/// the entry point and every other seed that lands in the text becomes a
/// function.
pub proof fn law_seeds_become_functions(program: Program, seed: (u32, Source), address: u32)
    requires
        program.seeds@.contains(seed),
        landing(program, seed) == Some(address),
    ensures
        discover::findings(program).found.functions.contains_key(address),
{
    lemma_findings(program);
    let i = program.seeds@.index_of(seed);
    assert(program.seeds@[i] == seed);
}

/// whatever a function calls by its address, or finds the address of in a
/// table or literal that it jumps through, becomes a function too.
pub proof fn law_callees_become_functions(
    program: Program,
    entry: u32,
    address: u32,
    target: u32,
)
    requires
        discover::findings(program).found.functions.contains_key(entry),
        discover::findings(program).found.functions[entry].instructions.contains(address),
        ({
            let mode = discover::findings(program).found.functions[entry].mode;
            finds(program, instruction(program, mode, address).flow, address, target)
        }),
        program.text.holds(target),
    ensures
        discover::findings(program).found.functions.contains_key(target),
{
    lemma_findings(program);
    let search = discover::findings(program);
    assert(settled(program, search, entry, search.found.functions[entry]));
    assert(instruction_settled(program, search, search.found.functions[entry], address));
    assert(noticed(search, target));
}

/// every instruction of a function decodes, and the map has all of its bytes
/// for code.
pub proof fn law_instructions_are_code(program: Program, entry: u32, address: u32)
    requires
        discover::findings(program).found.functions.contains_key(entry),
        discover::findings(program).found.functions[entry].instructions.contains(address),
    ensures
        ({
            let found = discover::findings(program).found;
            let mode = found.functions[entry].mode;
            decodes(program, mode, address) && marked_code(program, found.map, mode, address)
        }),
{
    lemma_findings(program);
    let search = discover::findings(program);
    assert(settled(program, search, entry, search.found.functions[entry]));
}

/// every instruction of a function is a label, or the one before it is in the
/// function too and goes on to it without ending its block.
pub proof fn law_instructions_follow_one_another(program: Program, entry: u32, address: u32)
    requires
        discover::findings(program).found.functions.contains_key(entry),
        discover::findings(program).found.functions[entry].instructions.contains(address),
    ensures
        ({
            let function = discover::findings(program).found.functions[entry];
            arrived(program, function.mode, function.labels, function.instructions, address)
        }),
{
    lemma_findings(program);
    let search = discover::findings(program);
    assert(settled(program, search, entry, search.found.functions[entry]));
}

/// the labels of a function are instructions of it, and its entry is one
/// unless there is no instruction there.
pub proof fn law_labels_are_instructions(program: Program, entry: u32)
    requires
        discover::findings(program).found.functions.contains_key(entry),
    ensures
        ({
            let function = discover::findings(program).found.functions[entry];
            &&& function.labels.subset_of(function.instructions)
            &&& function.labels.contains(entry) <==> function.instructions.contains(entry)
        }),
{
    lemma_findings(program);
    let search = discover::findings(program);
    assert(settled(program, search, entry, search.found.functions[entry]));
}

/// execution can come back to the instruction after a call or an svc, and to
/// the start of a basic block, so each of them is a label.
pub proof fn law_blocks_start_at_labels(program: Program, entry: u32, address: u32)
    requires
        discover::findings(program).found.functions.contains_key(entry),
        discover::findings(program).found.functions[entry].instructions.contains(address),
    ensures
        ({
            let function = discover::findings(program).found.functions[entry];
            let flow = instruction(program, function.mode, address).flow;
            let after = next(program, function.mode, address);
            &&& discover::ends_block(flow) && function.instructions.contains(after)
                ==> function.labels.contains(after)
            &&& forall|target: u32| #[trigger]
                goes_to(program, flow, address, target) && program.text.holds(target)
                    && function.instructions.contains(target) ==> function.labels.contains(target)
        }),
{
    lemma_findings(program);
    let search = discover::findings(program);
    assert(settled(program, search, entry, search.found.functions[entry]));
    assert(instruction_settled(program, search, search.found.functions[entry], address));
}

/// wherever an instruction can go on or branch to inside the text, by any of
/// the cases of a table too, has been reached, unless there is no instruction
/// there.
pub proof fn law_paths_are_followed(program: Program, entry: u32, address: u32)
    requires
        discover::findings(program).found.functions.contains_key(entry),
        discover::findings(program).found.functions[entry].instructions.contains(address),
    ensures
        ({
            let found = discover::findings(program).found;
            let mode = found.functions[entry].mode;
            let flow = instruction(program, mode, address).flow;
            let after = next(program, mode, address);
            &&& runs_on(instruction(program, mode, address)) && program.text.holds(after)
                ==> seen_to(program, found.map, mode, after)
            &&& forall|target: u32| #[trigger]
                goes_to(program, flow, address, target) && program.text.holds(target) ==> seen_to(
                    program,
                    found.map,
                    mode,
                    target,
                )
        }),
{
    lemma_findings(program);
    let search = discover::findings(program);
    assert(settled(program, search, entry, search.found.functions[entry]));
    assert(instruction_settled(program, search, search.found.functions[entry], address));
}

proof fn lemma_outside_walk(program: Program, mode: Mode, search: Search, entry: u32, count: nat)
    requires
        !program.text.holds(entry),
        count >= 2,
    ensures
        ({
            let walk = discover::walk_steps(
                program,
                mode,
                discover::walk_from(search, entry),
                count,
            );
            &&& walk.done()
            &&& walk.search == search
            &&& walk.instructions == Set::<u32>::empty()
        }),
    decreases count,
{
    reveal(discover::walk_step);
    reveal_with_fuel(discover::walk_steps, 3);
    let start = discover::walk_from(search, entry);
    if count == 2 {
        let onto = discover::walk_step(program, mode, start);
        assert(onto.blocks =~= Seq::empty());
        assert(onto.at == Some(entry));
    } else {
        lemma_outside_walk(program, mode, search, entry, (count - 1) as nat);
    }
}

/// looking into a function only adds to what is known. code stays code, what
/// was reached stays reached, no function is touched, and what is found to
/// call waits behind what waited already. from outside the text nothing comes.
pub proof fn law_walk_only_adds(program: Program, mode: Mode, search: Search, entry: u32)
    requires
        search.found.map.len() == program.text.bytes@.len(),
    ensures
        ({
            let walk = discover::walked(program, mode, discover::walk_from(search, entry));
            &&& search.added_to(walk.search)
            &&& !program.text.holds(entry) ==> walk.search == search && walk.instructions
                == Set::<u32>::empty()
        }),
{
    let start = discover::walk_from(search, entry);
    assert(start.blocks[0] == entry);
    law_walk_ends(program, mode, start);
    let count = choose|count: nat| #[trigger]
        discover::walk_steps(program, mode, start, count).done();
    lemma_steps_on_course(program, mode, entry, start, count);
    let after = discover::walked(program, mode, start).search;
    assert(search.queue =~= after.queue.subrange(0, search.queue.len() as int));
    if !program.text.holds(entry) {
        reveal(discover::walk_step);
        reveal_with_fuel(discover::walk_steps, 2);
        if count == 1 {
            assert(discover::walk_step(program, mode, start).at is Some);
        }
        lemma_outside_walk(program, mode, search, entry, count);
    }
}

/// a function that waits is in the text, or the program starts there.
pub open spec fn waits_rightly(program: Program, waiting: (u32, Mode, Source)) -> bool {
    program.text.holds(waiting.0) || (waiting.2 is Entry && program.seeds@.contains(
        (waiting.0, Source::Entry),
    ))
}

/// everything that waits does so rightly.
pub open spec fn queue_right(program: Program, search: Search) -> bool {
    forall|i: int| 0 <= i < search.queue.len() ==> waits_rightly(program, #[trigger] search.queue[i])
}

proof fn lemma_branch_table_queue(program: Program, walk: Walk, slot: u32)
    ensures
        discover::branch_table_walk(program, walk, slot).search.queue == walk.search.queue,
    decreases 0x1_0000_0000 - slot,
{
    if discover::is_case(program.text, slot) && slot + 4 < 0x1_0000_0000 {
        lemma_branch_table_queue(
            program,
            discover::case_walk(program, walk, slot),
            (slot + 4) as u32,
        );
    }
}

proof fn lemma_address_table_queue(program: Program, walk: Walk, slot: u32, left: nat)
    requires
        queue_right(program, walk.search),
    ensures
        queue_right(program, discover::address_table_walk(program, walk, slot, left).search),
    decreases left,
{
    if left > 0 {
        if let Some(target) = program.text.word_at(slot) {
            let search = walk.search.mark(program, slot, 4, Byte::Literal);
            let after = if target & 3 == 0 {
                walk.with_search(search).block(target)
            } else {
                walk.with_search(search.lead(program, target, Source::Pointer))
            };
            lemma_address_table_queue(program, after, slot.wrapping_add(4), (left - 1) as nat);
        }
    }
}

proof fn lemma_step_queue(program: Program, mode: Mode, walk: Walk)
    requires
        queue_right(program, walk.search),
    ensures
        queue_right(program, discover::walk_step(program, mode, walk).search),
{
    reveal(discover::walk_step);
    if let Some(address) = walk.at {
        if decodes(program, mode, address) {
            let seen = Walk { seen: walk.seen.insert(address), ..walk };
            let flow = instruction(program, mode, address).flow;
            let decoded = Walk {
                search: seen.search.mark(
                    program,
                    address,
                    size(program, mode, address),
                    Byte::Code,
                ),
                instructions: seen.instructions.insert(address),
                ..seen
            };
            let split = if discover::ends_block(flow) {
                decoded.begins_block(next(program, mode, address))
            } else {
                decoded
            };
            let counted = split.with_search(split.search.count_table());
            match flow {
                Flow::JumpTable => {
                    lemma_branch_table_queue(program, counted, address.wrapping_add(4));
                },
                Flow::AddressTable { index } => {
                    lemma_address_table_queue(
                        program,
                        counted,
                        address.wrapping_add(8),
                        discover::table_size(program.text, address, index),
                    );
                },
                _ => {},
            }
        }
    }
}

proof fn lemma_steps_queue(program: Program, mode: Mode, walk: Walk, count: nat)
    requires
        queue_right(program, walk.search),
    ensures
        queue_right(program, discover::walk_steps(program, mode, walk, count).search),
    decreases count,
{
    if count > 0 {
        lemma_steps_queue(program, mode, walk, (count - 1) as nat);
        lemma_step_queue(
            program,
            mode,
            discover::walk_steps(program, mode, walk, (count - 1) as nat),
        );
    }
}

/// every function found, or waiting, is in the text or where the program
/// starts.
pub open spec fn functions_right(program: Program, search: Search) -> bool {
    &&& queue_right(program, search)
    &&& forall|entry: u32| #[trigger]
        search.found.functions.contains_key(entry) ==> waits_rightly(
            program,
            (entry, search.found.functions[entry].mode, search.found.functions[entry].source),
        )
}

/// every function of before is the same in after.
pub open spec fn functions_stay(before: Search, after: Search) -> bool {
    forall|entry: u32| #[trigger]
        before.found.functions.contains_key(entry) ==> after.found.functions.contains_key(entry)
            && after.found.functions[entry] == before.found.functions[entry]
}

proof fn lemma_search_step_right(program: Program, search: Search)
    requires
        functions_right(program, search),
    ensures
        functions_right(program, discover::search_step(program, search)),
        functions_stay(search, discover::search_step(program, search)),
{
    if search.queue.len() > 0 {
        let (entry, mode, source) = search.queue[0];
        let rest = Search { queue: search.queue.drop_first(), ..search };
        assert(waits_rightly(program, search.queue[0]));
        assert forall|i: int| 0 <= i < rest.queue.len() implies waits_rightly(
            program,
            #[trigger] rest.queue[i],
        ) by {
            assert(waits_rightly(program, search.queue[i + 1]));
        }
        let start = discover::walk_from(rest, entry);
        let count = choose|count: nat| #[trigger]
            discover::walk_steps(program, mode, start, count).done();
        lemma_steps_queue(program, mode, start, count);
        discover::lemma_walk_keeps_functions(program, mode, rest, entry);
    }
}

proof fn lemma_search_steps_right(program: Program, search: Search, count: nat)
    requires
        functions_right(program, search),
    ensures
        functions_right(program, discover::search_steps(program, search, count)),
        functions_stay(search, discover::search_steps(program, search, count)),
    decreases count,
{
    if count > 0 {
        lemma_search_steps_right(program, search, (count - 1) as nat);
        lemma_search_step_right(
            program,
            discover::search_steps(program, search, (count - 1) as nat),
        );
    }
}

proof fn lemma_seeded_right(program: Program, search: Search, pointers: bool, count: nat)
    requires
        functions_right(program, search),
        count <= program.seeds@.len(),
    ensures
        functions_right(program, discover::seeded(program, search, pointers, count)),
        functions_stay(search, discover::seeded(program, search, pointers, count)),
        queue_extends(search, discover::seeded(program, search, pointers, count)),
        !pointers && count > 0 && program.seeds@[0].1 is Entry && search.queue.len() == 0 ==> ({
            let queue = discover::seeded(program, search, pointers, count).queue;
            queue.len() > 0 && queue[0] == (program.seeds@[0].0, Mode::Arm, Source::Entry)
        }),
    decreases count,
{
    if count > 0 {
        lemma_seeded_right(program, search, pointers, (count - 1) as nat);
        let next = program.seeds@[count - 1];
        assert(program.seeds@.contains(next));
    }
}

/// the findings keep to the text, and start with the first seed when that is
/// where the program starts.
proof fn lemma_findings_right(program: Program)
    ensures
        functions_right(program, discover::findings(program)),
        program.seeds@.len() > 0 && program.seeds@[0].1 is Entry ==> ({
            let found = discover::findings(program).found;
            let entry = program.seeds@[0].0;
            &&& found.functions.contains_key(entry)
            &&& found.functions[entry].source is Entry
            &&& found.functions[entry].mode is Arm
        }),
{
    let size = program.seeds@.len();
    let start = discover::nothing_found(program.text.bytes@.len());
    let first = discover::seeded(program, start, false, size);
    let known = discover::searched(program, first);
    let second = discover::seeded(program, known, true, size);
    lemma_seeded_right(program, start, false, size);
    law_search_ends(program, first);
    let count = choose|count: nat| #[trigger]
        discover::search_steps(program, first, count).queue.len() == 0;
    lemma_search_steps_right(program, first, count);
    lemma_seeded_right(program, known, true, size);
    let more = choose|count: nat| #[trigger]
        discover::search_steps(program, second, count).queue.len() == 0;
    lemma_search_steps_right(program, second, more);
    if size > 0 && program.seeds@[0].1 is Entry {
        let entry = program.seeds@[0].0;
        let after = discover::search_step(program, first);
        let rest = Search { queue: first.queue.drop_first(), ..first };
        lemma_seeded_finds_nothing(program, start, false, size);
        discover::lemma_walk_keeps_functions(program, Mode::Arm, rest, entry);
        assert(after.found.functions.contains_key(entry));
        lemma_search_step_right(program, first);
        assert(count > 0);
        lemma_search_shift(program, first, (count - 1) as nat);
        lemma_search_steps_right(program, after, (count - 1) as nat);
        assert(known.found.functions.contains_key(entry));
        assert(second.found.functions.contains_key(entry));
    }
}

proof fn lemma_seeded_finds_nothing(program: Program, search: Search, pointers: bool, count: nat)
    ensures
        discover::seeded(program, search, pointers, count).found == search.found,
    decreases count,
{
    if count > 0 {
        lemma_seeded_finds_nothing(program, search, pointers, (count - 1) as nat);
    }
}

/// every function lies in the text, but for one the program starts with
/// outside of it.
pub proof fn law_functions_are_in_the_text(program: Program, entry: u32)
    requires
        discover::findings(program).found.functions.contains_key(entry),
    ensures
        program.text.holds(entry) || (program.seeds@.contains((entry, Source::Entry))
            && discover::findings(program).found.functions[entry].source is Entry),
{
    lemma_findings_right(program);
}

/// where the program starts is a function known for that, in ARM, when it is
/// the first of the seeds.
pub proof fn law_entry_is_known_as_such(program: Program)
    requires
        program.seeds@.len() > 0,
        program.seeds@[0].1 is Entry,
    ensures
        ({
            let found = discover::findings(program).found;
            let entry = program.seeds@[0].0;
            &&& found.functions.contains_key(entry)
            &&& found.functions[entry].source is Entry
            &&& found.functions[entry].mode is Arm
        }),
{
    lemma_findings_right(program);
}

} // verus!
