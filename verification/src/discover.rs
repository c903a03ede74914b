//! finding the code in a program. functions are found from its seeds by
//! following calls and branches, and from words in literal pools that point
//! into the code, which is where vtables and callbacks live.

use crate::arm;
use crate::arm::{Flow, Instruction};
use crate::image::Segment;
use crate::sorted;
use crate::thumb;
use std::collections::{BTreeMap, BTreeSet, VecDeque};
use vstd::prelude::*;

pub mod laws;

verus! {

broadcast use {vstd::laws_cmp::group_laws_cmp, vstd::std_specs::btree::group_btree_axioms};

/// how a function was found.
#[derive(Debug, Clone, Copy, PartialEq, Eq, PartialOrd, Ord, Structural)]
pub enum Source {
    Entry,
    Call,
    /// a name the program gives out.
    Export,
    /// an address other programs take without a name.
    Import,
    /// a pointer the loader fills in.
    Relocation,
    /// a code address stored in a literal pool or in the data segments.
    Pointer,
}

#[derive(Debug, Clone, Copy, PartialEq, Eq, PartialOrd, Ord, Structural)]
pub enum Mode {
    Arm,
    Thumb,
}

impl Mode {
    /// the state blx switches to.
    pub open spec fn switched(self) -> Mode {
        match self {
            Mode::Arm => Mode::Thumb,
            Mode::Thumb => Mode::Arm,
        }
    }

    fn other(self) -> (mode: Mode)
        ensures
            mode == self.switched(),
    {
        match self {
            Mode::Arm => Mode::Thumb,
            Mode::Thumb => Mode::Arm,
        }
    }
}

/// code to look for functions in, and where to start looking.
pub struct Program {
    pub text: Segment,
    /// addresses known to be code, odd for Thumb, and how they are known.
    pub seeds: Vec<(u32, Source)>,
    /// the only places in the text that hold pointers, where that is known.
    pub slots: Option<BTreeSet<u32>>,
}

impl Program {
    /// the word at address may be a pointer.
    pub open spec fn may_point(self, address: u32) -> bool {
        match self.slots {
            Some(slots) => slots@.contains(address),
            None => true,
        }
    }
}

#[derive(Debug, Clone)]
pub struct Function {
    pub source: Source,
    pub mode: Mode,
    /// the addresses of its instructions, from the lowest up.
    pub instructions: Vec<u32>,
    /// where the host may start running it.
    pub labels: BTreeSet<u32>,
}

/// what is known of a function.
#[verifier::ext_equal]
pub struct Known {
    pub source: Source,
    pub mode: Mode,
    pub instructions: Set<u32>,
    pub labels: Set<u32>,
}

impl Function {
    pub open spec fn known(self) -> Known {
        Known {
            source: self.source,
            mode: self.mode,
            instructions: self.instructions@.to_set(),
            labels: self.labels@,
        }
    }

    /// the instructions are in order and none occurs twice.
    pub open spec fn wf(self) -> bool {
        sorted::ascending(self.instructions@)
    }
}

/// what each byte of the text segment turned out to be.
#[derive(Debug, Clone, Copy, PartialEq, Eq, Structural)]
pub enum Byte {
    Unknown,
    Code,
    Literal,
}

pub struct Analysis {
    pub functions: BTreeMap<u32, Function>,
    pub map: Vec<Byte>,
    pub indirect_sites: usize,
    pub jump_tables: usize,
    pub svc_sites: usize,
    /// paths abandoned because they ran into something that cannot be code.
    pub dead_ends: usize,
}

/// what an analysis found, as mathematical values.
#[verifier::ext_equal]
pub struct Findings {
    pub functions: Map<u32, Known>,
    pub map: Seq<Byte>,
    pub indirect_sites: usize,
    pub jump_tables: usize,
    pub svc_sites: usize,
    pub dead_ends: usize,
}

impl View for Analysis {
    type V = Findings;

    open spec fn view(&self) -> Findings {
        Findings {
            functions: self.functions@.map_values(|function: Function| function.known()),
            map: self.map@,
            indirect_sites: self.indirect_sites,
            jump_tables: self.jump_tables,
            svc_sites: self.svc_sites,
            dead_ends: self.dead_ends,
        }
    }
}

/// a longest possible run of bytes that nobody reached.
pub open spec fn is_gap(map: Seq<Byte>, start: int, length: int) -> bool {
    &&& 0 <= start && 0 < length && start + length <= map.len()
    &&& forall|i: int| start <= i < start + length ==> map[i] == Byte::Unknown
    &&& start == 0 || map[start - 1] != Byte::Unknown
    &&& start + length == map.len() || map[start + length] != Byte::Unknown
}

/// the longer of two gaps comes first, and of equally long ones the lower.
pub open spec fn comes_before(a: (usize, usize), b: (usize, usize)) -> bool {
    a.1 > b.1 || (a.1 == b.1 && a.0 < b.0)
}

/// gaps are all the gaps of map, the longest first.
pub open spec fn ranks_gaps(gaps: Seq<(usize, usize)>, map: Seq<Byte>) -> bool {
    &&& forall|i: int, j: int| 0 <= i < j < gaps.len() ==> #[trigger] comes_before(gaps[i], gaps[j])
    &&& forall|gap: (usize, usize)|
        #[trigger] gaps.contains(gap) <==> is_gap(map, gap.0 as int, gap.1 as int)
}

/// the first count of gaps, as addresses past base.
pub open spec fn first_gaps(gaps: Seq<(usize, usize)>, base: u32, count: usize) -> Seq<(u32, usize)> {
    Seq::new(
        if gaps.len() <= count {
            gaps.len()
        } else {
            count as nat
        },
        |i: int| (arm::displaced(base, gaps[i].0 as int), gaps[i].1),
    )
}

/// puts a gap where it belongs among the ones before it.
fn rank_gap(gaps: &mut Vec<(usize, usize)>, gap: (usize, usize))
    requires
        forall|i: int, j: int|
            0 <= i < j < old(gaps).len() ==> #[trigger] comes_before(old(gaps)@[i], old(gaps)@[j]),
        !old(gaps)@.contains(gap),
    ensures
        forall|i: int, j: int|
            0 <= i < j < final(gaps).len() ==> #[trigger] comes_before(
                final(gaps)@[i],
                final(gaps)@[j],
            ),
        forall|other: (usize, usize)|
            #[trigger] final(gaps)@.contains(other) <==> old(gaps)@.contains(other) || other == gap,
{
    let mut at = gaps.len();
    while at > 0 && (gap.1 > gaps[at - 1].1 || (gap.1 == gaps[at - 1].1 && gap.0 < gaps[at - 1].0))
        invariant
            at <= gaps.len(),
            *gaps == *old(gaps),
            forall|i: int| at <= i < gaps.len() ==> #[trigger] comes_before(gap, gaps@[i]),
        decreases at,
    {
        at -= 1;
    }
    let ghost before = gaps@;
    gaps.insert(at, gap);
    proof {
        assert(gaps@ == before.insert(at as int, gap));
        if at > 0 {
            assert(before.contains(before[at - 1]));
        }
        assert forall|i: int, j: int| 0 <= i < j < gaps.len() implies #[trigger] comes_before(
            gaps@[i],
            gaps@[j],
        ) by {
            let k = if i < at {
                i
            } else {
                i - 1
            };
            let l = if j < at {
                j
            } else {
                j - 1
            };
            if i != at && j != at {
                assert(comes_before(before[k], before[l]));
            } else if i == at {
                assert(comes_before(gap, before[l]));
            } else if i < at - 1 {
                assert(comes_before(before[i], before[at - 1]));
            }
        }
        assert forall|other: (usize, usize)| #[trigger]
            gaps@.contains(other) <==> before.contains(other) || other == gap by {
            if before.contains(other) {
                let k = before.index_of(other);
                assert(gaps@[if k < at {
                    k
                } else {
                    k + 1
                }] == other);
            }
            if other == gap {
                assert(gaps@[at as int] == other);
            }
            if gaps@.contains(other) {
                let k = gaps@.index_of(other);
                if k < at {
                    assert(before[k] == other);
                } else if k > at {
                    assert(before[k - 1] == other);
                }
            }
        }
    }
}

/// where an offset into text at base is.
fn placed_at(base: u32, offset: usize) -> (address: u32)
    ensures
        address == arm::displaced(base, offset as int),
{
    let low = (offset as u64 % 0x1_0000_0000) as u32;
    assert((base + low) % 0x1_0000_0000 == (base + offset) % 0x1_0000_0000);
    base.wrapping_add(low)
}

/// the first of ranked, as addresses.
fn placed_gaps(ranked: &Vec<(usize, usize)>, base: u32, count: usize) -> (gaps: Vec<(u32, usize)>)
    ensures
        gaps@ == first_gaps(ranked@, base, count),
{
    let mut gaps: Vec<(u32, usize)> = Vec::new();
    let mut i: usize = 0;
    while i < ranked.len() && i < count
        invariant
            i <= ranked.len(),
            i <= count,
            gaps@ =~= first_gaps(ranked@, base, i),
        decreases ranked.len() - i,
    {
        gaps.push((placed_at(base, ranked[i].0), ranked[i].1));
        i += 1;
    }
    assert(gaps@ =~= first_gaps(ranked@, base, count));
    gaps
}

impl Analysis {
    /// every function lists its instructions in order.
    pub open spec fn wf(self) -> bool {
        forall|entry: u32| #[trigger]
            self.functions@.contains_key(entry) ==> self.functions@[entry].wf()
    }

    /// how many bytes turned out to be of one kind.
    pub fn count(&self, kind: Byte) -> (count: usize)
        ensures
            count == self.map@.to_multiset().count(kind),
    {
        let mut count: usize = 0;
        proof {
            self.map@.take(0).to_multiset_ensures();
        }
        for i in 0..self.map.len()
            invariant
                count == self.map@.take(i as int).to_multiset().count(kind),
                count <= i,
        {
            let ghost before = self.map@.take(i as int);
            assert(self.map@.take(i + 1) =~= before.push(self.map@[i as int]));
            proof {
                before.to_multiset_ensures();
            }
            if self.map[i] == kind {
                count += 1;
            }
        }
        assert(self.map@.take(self.map@.len() as int) =~= self.map@);
        count
    }

    /// the longest runs of text nobody reached, as (start, length).
    pub fn largest_gaps(&self, base: u32, count: usize) -> (gaps: Vec<(u32, usize)>)
        ensures
            exists|all: Seq<(usize, usize)>|
                #[trigger] ranks_gaps(all, self.map@) && gaps@ == first_gaps(all, base, count),
    {
        let mut ranked: Vec<(usize, usize)> = Vec::new();
        let mut start: Option<usize> = None;
        let size = self.map.len();
        let mut offset: usize = 0;
        while offset < size
            invariant
                size == self.map@.len(),
                offset <= size,
                forall|i: int, j: int|
                    0 <= i < j < ranked.len() ==> #[trigger] comes_before(ranked@[i], ranked@[j]),
                forall|gap: (usize, usize)| #[trigger]
                    ranked@.contains(gap) <==> is_gap(self.map@, gap.0 as int, gap.1 as int) && gap.0
                        + gap.1 < offset,
                start is None ==> offset == 0 || self.map@[offset - 1] != Byte::Unknown,
                start matches Some(s) ==> {
                    &&& s < offset
                    &&& forall|i: int| s <= i < offset ==> self.map@[i] == Byte::Unknown
                    &&& s == 0 || self.map@[s - 1] != Byte::Unknown
                },
            decreases size - offset,
        {
            let ghost before = ranked@;
            let unknown = self.map[offset] == Byte::Unknown;
            match start {
                None => {
                    if unknown {
                        start = Some(offset);
                    }
                },
                Some(s) => {
                    if !unknown {
                        rank_gap(&mut ranked, (s, offset - s));
                        start = None;
                    }
                },
            }
            proof {
                lemma_gap_ends(self.map@, offset as int);
            }
            offset += 1;
        }
        if let Some(s) = start {
            rank_gap(&mut ranked, (s, size - s));
        }
        assert(ranks_gaps(ranked@, self.map@)) by {
            lemma_gap_ends(self.map@, size as int);
        }
        placed_gaps(&ranked, base, count)
    }
}

/// a gap that ends at offset starts right after the last byte before it that
/// is known.
proof fn lemma_gap_ends(map: Seq<Byte>, offset: int)
    requires
        0 <= offset <= map.len(),
    ensures
        forall|a: int, b: int, m: int, n: int|
            is_gap(map, a, m) && is_gap(map, b, n) && a + m == offset && b + n == offset ==> a == b && m
                == n,
        offset < map.len() && map[offset] == Byte::Unknown ==> forall|a: int, m: int|
            is_gap(map, a, m) ==> a + m != offset,
        offset == 0 || map[offset - 1] != Byte::Unknown ==> forall|a: int, m: int|
            is_gap(map, a, m) ==> a + m != offset,
{
    assert forall|a: int, b: int, m: int, n: int|
        is_gap(map, a, m) && is_gap(map, b, n) && a + m == offset && b + n == offset implies a == b
        && m == n by {
        if a < b {
            assert(map[b - 1] == Byte::Unknown);
        }
        if b < a {
            assert(map[a - 1] == Byte::Unknown);
        }
    }
    if offset > 0 {
        assert forall|a: int, m: int| is_gap(map, a, m) && a + m == offset implies map[offset - 1]
            == Byte::Unknown by {}
    }
}

/// one more, as far as the counter goes.
pub open spec fn one_more(count: usize) -> usize {
    if count < usize::MAX {
        (count + 1) as usize
    } else {
        count
    }
}

fn bump(count: &mut usize)
    ensures
        *final(count) == one_more(*old(count)),
{
    if *count < usize::MAX {
        *count += 1;
    }
}

/// map with size bytes at address taken for kind, where code wins over a
/// literal guess.
pub open spec fn marked(map: Seq<Byte>, base: u32, address: u32, size: u32, kind: Byte) -> Seq<Byte> {
    Seq::new(
        map.len(),
        |i: int|
            if address <= base + i < address + size && map[i] != Byte::Code {
                kind
            } else {
                map[i]
            },
    )
}

/// the function a pointer leads to, odd for Thumb.
pub open spec fn pointed_function(value: u32) -> Option<(u32, Mode)> {
    if value & 1 != 0 {
        Some((value & !1, Mode::Thumb))
    } else if value & 3 == 0 {
        Some((value, Mode::Arm))
    } else {
        None
    }
}

/// the instruction at address and its size.
pub open spec fn instruction_at(text: Segment, address: u32, mode: Mode) -> Option<(Instruction, u32)> {
    match mode {
        Mode::Arm => match text.word_at(address) {
            Some(word) => Some(
                (Instruction { condition: word >> 28, flow: arm::flow_of(word, address) }, 4u32),
            ),
            None => None,
        },
        Mode::Thumb => match text.half_at(address) {
            Some(half) => {
                let next = text.half_at(address.wrapping_add(2));
                Some(
                    (
                        Instruction {
                            condition: thumb::condition_of(half),
                            flow: thumb::flow_of(half, next, address),
                        },
                        thumb::size_of(half, next),
                    ),
                )
            },
            None => None,
        },
    }
}

/// how far the search has come, the functions in queue are still to be
/// looked into.
#[verifier::ext_equal]
pub struct Search {
    pub found: Findings,
    pub queue: Seq<(u32, Mode, Source)>,
}

impl Search {
    pub open spec fn with_found(self, found: Findings) -> Search {
        Search { found, ..self }
    }

    pub open spec fn mark(self, program: Program, address: u32, size: u32, kind: Byte) -> Search {
        self.with_found(
            Findings {
                map: marked(self.found.map, program.text.base, address, size, kind),
                ..self.found
            },
        )
    }

    /// queues the function at address, unless it is outside or known.
    pub open spec fn note(self, program: Program, address: u32, mode: Mode, source: Source) -> Search {
        if program.text.holds(address) && !self.found.functions.contains_key(address) {
            Search { queue: self.queue.push((address, mode, source)), ..self }
        } else {
            self
        }
    }

    /// queues the function a pointer leads to.
    pub open spec fn lead(self, program: Program, value: u32, source: Source) -> Search {
        match pointed_function(value) {
            Some((address, mode)) => self.note(program, address, mode, source),
            None => self,
        }
    }

    pub open spec fn count_indirect(self) -> Search {
        self.with_found(
            Findings { indirect_sites: one_more(self.found.indirect_sites), ..self.found },
        )
    }

    pub open spec fn count_table(self) -> Search {
        self.with_found(Findings { jump_tables: one_more(self.found.jump_tables), ..self.found })
    }

    pub open spec fn count_svc(self) -> Search {
        self.with_found(Findings { svc_sites: one_more(self.found.svc_sites), ..self.found })
    }

    pub open spec fn count_dead_end(self) -> Search {
        self.with_found(Findings { dead_ends: one_more(self.found.dead_ends), ..self.found })
    }

    /// after only knows more. code stays code, what was reached stays reached,
    /// no function is touched, and what waits does so in front of the rest.
    pub open spec fn added_to(self, after: Search) -> bool {
        &&& after.found.map.len() == self.found.map.len()
        &&& forall|i: int|
            0 <= i < self.found.map.len() ==> (self.found.map[i] == Byte::Code ==> (
            #[trigger] after.found.map[i]) == Byte::Code) && (self.found.map[i] != Byte::Unknown
                ==> after.found.map[i] != Byte::Unknown)
        &&& after.found.functions == self.found.functions
        &&& self.queue.is_prefix_of(after.queue)
    }

    /// the kind of the byte at address, which has to be inside the text.
    pub open spec fn byte(self, program: Program, address: u32) -> Byte {
        self.found.map[address - program.text.base]
    }
}

/// the way through one function, with the path it is on at the address at.
#[verifier::ext_equal]
pub struct Walk {
    pub search: Search,
    /// where paths are still to be followed from.
    pub blocks: Seq<u32>,
    /// every address a path came through.
    pub seen: Set<u32>,
    pub instructions: Set<u32>,
    /// where basic blocks start, code or not.
    pub starts: Set<u32>,
    pub at: Option<u32>,
}

impl Walk {
    pub open spec fn with_search(self, search: Search) -> Walk {
        Walk { search, ..self }
    }

    /// the path goes on to address.
    pub open spec fn onto(self, address: u32) -> Walk {
        Walk { at: Some(address), ..self }
    }

    /// the path is over.
    pub open spec fn stop(self) -> Walk {
        Walk { at: None, ..self }
    }

    /// there is a block at target.
    pub open spec fn block(self, target: u32) -> Walk {
        Walk { blocks: self.blocks.push(target), starts: self.starts.insert(target), ..self }
    }

    pub open spec fn begins_block(self, address: u32) -> Walk {
        Walk { starts: self.starts.insert(address), ..self }
    }

    /// nothing is left to follow.
    pub open spec fn done(self) -> bool {
        self.at is None && self.blocks.len() == 0
    }
}

/// an unconditional branch, as in a table of them.
pub open spec fn is_case(text: Segment, slot: u32) -> bool {
    text.word_at(slot) matches Some(word) && word >> 28 == arm::ALWAYS && (arm::flow_of(
        word,
        slot,
    ) matches Flow::Branch { link, .. } && !link)
}

/// where the branch at slot goes.
pub open spec fn case_target(text: Segment, slot: u32) -> u32 {
    arm::flow_of(text.word_at(slot)->0, slot)->Branch_target
}

/// the walk with the branch at slot, which is a block of its own, and the case
/// that it goes to.
pub open spec fn case_walk(program: Program, walk: Walk, slot: u32) -> Walk {
    let next = walk.with_search(walk.search.mark(program, slot, 4, Byte::Code)).block(slot);
    let target = case_target(program.text, slot);
    if program.text.holds(target) {
        next.block(target)
    } else {
        next
    }
}

/// the run of branches that starts at slot.
pub open spec fn branch_table_walk(program: Program, walk: Walk, slot: u32) -> Walk
    decreases 0x1_0000_0000 - slot,
{
    if !is_case(program.text, slot) {
        walk
    } else {
        let next = case_walk(program, walk, slot);
        if slot + 4 < 0x1_0000_0000 {
            branch_table_walk(program, next, (slot + 4) as u32)
        } else {
            next
        }
    }
}

/// how many addresses the table that goes with the load at address may
/// hold, which the cmp just before it says.
pub open spec fn table_size(text: Segment, address: u32, index: u32) -> nat {
    if address < 4 {
        256
    } else {
        match text.word_at((address - 4) as u32) {
            Some(word) => match arm::compare_of(word) {
                Some((register, limit)) => if register == index {
                    limit as nat + 1
                } else {
                    256
                },
                None => 256,
            },
            None => 256,
        }
    }
}

/// up to left addresses from slot on, as long as they point into the code.
pub open spec fn address_table_walk(program: Program, walk: Walk, slot: u32, left: nat) -> Walk
    decreases left,
{
    if left == 0 {
        walk
    } else {
        match program.text.word_at(slot) {
            Some(target) => if program.text.holds(target & !1) {
                let search = walk.search.mark(program, slot, 4, Byte::Literal);
                let next = if target & 3 == 0 {
                    walk.with_search(search).block(target)
                } else {
                    walk.with_search(search.lead(program, target, Source::Pointer))
                };
                address_table_walk(program, next, slot.wrapping_add(4), (left - 1) as nat)
            } else {
                walk
            },
            None => walk,
        }
    }
}

/// what the word at literal, which the code loads, gives away.
pub open spec fn literal_search(program: Program, search: Search, literal: u32, size: u32) -> Search {
    // a load from something already decoded as code is left alone
    if program.text.holds(literal) && search.byte(program, literal) != Byte::Code {
        let marked = search.mark(program, literal, size, Byte::Literal);
        match program.text.word_at(literal) {
            Some(value) => if size == 4 && program.may_point(literal) {
                marked.lead(program, value, Source::Pointer)
            } else {
                marked
            },
            None => marked,
        }
    } else {
        search
    }
}

/// the search after ldr pc from literal.
pub open spec fn jump_literal_search(program: Program, search: Search, literal: u32) -> Search {
    let marked = search.mark(program, literal, 4, Byte::Literal);
    match program.text.word_at(literal) {
        Some(target) => marked.lead(program, target, Source::Pointer),
        None => marked,
    }
}

/// the instruction only goes on to the one after it when it is skipped over.
pub open spec fn leaves(flow: Flow) -> bool {
    match flow {
        Flow::Branch { link, .. } => !link,
        Flow::BranchRegister { link, .. } => !link,
        Flow::Return | Flow::JumpTable | Flow::AddressTable { .. } => true,
        Flow::IndirectJump | Flow::LoadPcLiteral { .. } => true,
        _ => false,
    }
}

/// the instruction is the last of its basic block.
pub open spec fn ends_block(flow: Flow) -> bool {
    !(flow is Other || flow is LiteralLoad)
}

/// what an instruction that flows this way leads to.
pub open spec fn flow_walk(program: Program, mode: Mode, walk: Walk, address: u32, flow: Flow) -> Walk {
    let search = walk.search;
    match flow {
        Flow::Branch { target, link } => if link {
            walk.with_search(search.note(program, target, mode, Source::Call))
        } else if program.text.holds(target) {
            walk.block(target)
        } else {
            walk
        },
        Flow::BranchToThumb { target } => walk.with_search(
            search.note(program, target, Mode::Thumb, Source::Call),
        ),
        Flow::CallOtherMode { target } => walk.with_search(
            search.note(program, target, mode.switched(), Source::Call),
        ),
        Flow::BranchRegister { .. } | Flow::IndirectJump => walk.with_search(
            search.count_indirect(),
        ),
        Flow::JumpTable => branch_table_walk(
            program,
            walk.with_search(search.count_table()),
            address.wrapping_add(4),
        ),
        Flow::AddressTable { index } => address_table_walk(
            program,
            walk.with_search(search.count_table()),
            address.wrapping_add(8),
            table_size(program.text, address, index),
        ),
        Flow::LoadPcLiteral { literal } => walk.with_search(
            jump_literal_search(program, search, literal),
        ),
        Flow::LiteralLoad { literal, size } => walk.with_search(
            literal_search(program, search, literal, size),
        ),
        Flow::Svc => walk.with_search(search.count_svc()),
        Flow::Return | Flow::Undefined | Flow::Other => walk,
    }
}

/// the walk past the instruction at address.
pub open spec fn instruction_walk(
    program: Program,
    mode: Mode,
    walk: Walk,
    address: u32,
    instruction: Instruction,
    size: u32,
) -> Walk {
    let decoded = Walk {
        search: walk.search.mark(program, address, size, Byte::Code),
        instructions: walk.instructions.insert(address),
        ..walk
    };
    let next = address.wrapping_add(size);
    let split = if ends_block(instruction.flow) {
        decoded.begins_block(next)
    } else {
        decoded
    };
    let led = flow_walk(program, mode, split, address, instruction.flow);
    if leaves(instruction.flow) && (instruction.flow is JumpTable || !instruction.conditional()) {
        led.stop()
    } else {
        led.onto(next)
    }
}

/// the walk after one step on its path, or onto the next path when it has
/// none.
#[verifier::opaque]
pub open spec fn walk_step(program: Program, mode: Mode, walk: Walk) -> Walk {
    match walk.at {
        None => if walk.blocks.len() == 0 {
            walk
        } else {
            Walk { blocks: walk.blocks.drop_last(), at: Some(walk.blocks.last()), ..walk }
        },
        Some(address) => if !program.text.holds(address) || walk.seen.contains(address) {
            walk.stop()
        } else {
            let seen = Walk { seen: walk.seen.insert(address), ..walk };
            if walk.search.byte(program, address) == Byte::Literal {
                // ran into a literal pool, the path is wrong or it ended
                seen.stop()
            } else {
                match instruction_at(program.text, address, mode) {
                    None => seen.stop(),
                    Some((instruction, size)) => if instruction.flow is Undefined {
                        seen.with_search(walk.search.count_dead_end()).stop()
                    } else {
                        instruction_walk(program, mode, seen, address, instruction, size)
                    },
                }
            }
        },
    }
}

/// the walk after count steps.
pub open spec fn walk_steps(program: Program, mode: Mode, walk: Walk, count: nat) -> Walk
    decreases count,
{
    if count == 0 {
        walk
    } else {
        walk_step(program, mode, walk_steps(program, mode, walk, (count - 1) as nat))
    }
}

/// the walk when nothing is left to follow.
pub open spec fn walked(program: Program, mode: Mode, walk: Walk) -> Walk {
    walk_steps(
        program,
        mode,
        walk,
        choose|count: nat| #[trigger] walk_steps(program, mode, walk, count).done(),
    )
}

/// the walk about to begin at entry.
pub open spec fn walk_from(search: Search, entry: u32) -> Walk {
    Walk {
        search,
        blocks: seq![entry],
        seen: Set::empty(),
        instructions: Set::empty(),
        starts: Set::empty().insert(entry),
        at: None,
    }
}

/// the search after the first function in the queue.
pub open spec fn search_step(program: Program, search: Search) -> Search {
    if search.queue.len() == 0 {
        search
    } else {
        let (entry, mode, source) = search.queue[0];
        let rest = Search { queue: search.queue.drop_first(), ..search };
        if search.found.functions.contains_key(entry) {
            rest
        } else {
            let walk = walked(program, mode, walk_from(rest, entry));
            walk.search.with_found(
                Findings {
                    functions: walk.search.found.functions.insert(
                        entry,
                        Known {
                            source,
                            mode,
                            instructions: walk.instructions,
                            labels: walk.starts.intersect(walk.instructions),
                        },
                    ),
                    ..walk.search.found
                },
            )
        }
    }
}

/// the search after count functions.
pub open spec fn search_steps(program: Program, search: Search, count: nat) -> Search
    decreases count,
{
    if count == 0 {
        search
    } else {
        search_step(program, search_steps(program, search, (count - 1) as nat))
    }
}

/// the search when the queue is empty.
pub open spec fn searched(program: Program, search: Search) -> Search {
    search_steps(
        program,
        search,
        choose|count: nat| #[trigger] search_steps(program, search, count).queue.len() == 0,
    )
}

/// the search with one seed queued.
pub open spec fn seed(program: Program, search: Search, seed: (u32, Source)) -> Search {
    if seed.1 is Entry {
        Search { queue: search.queue.push((seed.0, Mode::Arm, Source::Entry)), ..search }
    } else {
        search.lead(program, seed.0, seed.1)
    }
}

/// the search with the pointers among the first count seeds queued, or with
/// the ones that are not pointers.
pub open spec fn seeded(program: Program, search: Search, pointers: bool, count: nat) -> Search
    decreases count,
{
    if count == 0 {
        search
    } else {
        let before = seeded(program, search, pointers, (count - 1) as nat);
        let next = program.seeds@[count - 1];
        if (next.1 is Pointer) == pointers {
            seed(program, before, next)
        } else {
            before
        }
    }
}

/// nothing known about a text of size bytes.
pub open spec fn nothing_found(size: nat) -> Search {
    Search {
        found: Findings {
            functions: Map::empty(),
            map: Seq::new(size, |i: int| Byte::Unknown),
            indirect_sites: 0,
            jump_tables: 0,
            svc_sites: 0,
            dead_ends: 0,
        },
        queue: Seq::empty(),
    }
}

/// what there is to find in a program, first from what is known to be code
/// and then from what merely points into it.
pub open spec fn findings(program: Program) -> Search {
    let count = program.seeds@.len();
    let start = nothing_found(program.text.bytes@.len());
    let known = searched(program, seeded(program, start, false, count));
    searched(program, seeded(program, known, true, count))
}

/// finds the functions of a program.
pub fn analyze(program: &Program) -> (analysis: Analysis)
    ensures
        analysis@ == findings(*program).found,
        analysis.wf(),
{
    let size = program.text.bytes.len();
    let mut map: Vec<Byte> = Vec::new();
    map.resize(size, Byte::Unknown);
    let mut discovery = Discovery {
        program,
        analysis: Analysis {
            functions: BTreeMap::new(),
            map,
            indirect_sites: 0,
            jump_tables: 0,
            svc_sites: 0,
            dead_ends: 0,
        },
        queue: VecDeque::new(),
    };
    assert(discovery.search() =~= nothing_found(program.text.bytes@.len()));
    discovery.seeds(false);
    discovery.run();
    // then whatever the data segments point at
    discovery.seeds(true);
    discovery.run();
    discovery.analysis
}

/// an analysis on its way, the functions in queue are still to be looked into.
pub struct Discovery<'a> {
    pub program: &'a Program,
    pub analysis: Analysis,
    pub queue: VecDeque<(u32, Mode, Source)>,
}

/// the way through one function, but for the path it is on.
struct Trail {
    blocks: Vec<u32>,
    seen: BTreeSet<u32>,
    decoded: BTreeSet<u32>,
    starts: BTreeSet<u32>,
}

impl Trail {
    spec fn walk(self, search: Search, at: Option<u32>) -> Walk {
        Walk {
            search,
            blocks: self.blocks@,
            seen: self.seen@,
            instructions: self.decoded@,
            starts: self.starts@,
            at,
        }
    }

    fn push(&mut self, target: u32)
        ensures
            forall|search: Search, at: Option<u32>| #[trigger]
                final(self).walk(search, at) == old(self).walk(search, at).block(target),
            final(self).seen@ == old(self).seen@,
    {
        self.blocks.push(target);
        self.starts.insert(target);
    }
}

impl<'a> Discovery<'a> {
    pub open spec fn search(self) -> Search {
        Search { found: self.analysis@, queue: self.queue@ }
    }

    /// the map covers the text.
    pub open spec fn wf(self) -> bool {
        &&& self.analysis.map@.len() == self.program.text.bytes@.len()
        &&& self.analysis.wf()
    }

    fn mark(&mut self, address: u32, size: u32, kind: Byte)
        requires
            old(self).wf(),
        ensures
            final(self).wf(),
            final(self).program == old(self).program,
            final(self).search() == old(self).search().mark(
                *old(self).program,
                address,
                size,
                kind,
            ),
    {
        let ghost before = self.analysis.map@;
        let base = self.program.text.base;
        let mut done: u32 = 0;
        while done < size
            invariant
                done <= size,
                base == self.program.text.base,
                self.wf(),
                self.program == old(self).program,
                self.queue@ == old(self).queue@,
                before == old(self).analysis.map@,
                self.analysis@ == (Findings {
                    map: marked(before, base, address, done, kind),
                    ..old(self).analysis@
                }),
            decreases size - done,
        {
            let byte = address as u64 + done as u64;
            if byte >= base as u64 {
                let offset = byte - base as u64;
                if offset < self.analysis.map.len() as u64 {
                    // code wins over a literal guess
                    if self.analysis.map[offset as usize] != Byte::Code {
                        self.analysis.map.set(offset as usize, kind);
                    }
                }
            }
            done += 1;
            assert(self.analysis.map@ =~= marked(before, base, address, done, kind));
        }
    }

    fn byte(&self, address: u32) -> (byte: Byte)
        requires
            self.wf(),
            self.program.text.holds(address),
        ensures
            byte == self.search().byte(*self.program, address),
    {
        self.analysis.map[(address - self.program.text.base) as usize]
    }

    /// a function that starts at address.
    fn function(&mut self, address: u32, mode: Mode, source: Source)
        requires
            old(self).wf(),
        ensures
            final(self).wf(),
            final(self).program == old(self).program,
            final(self).search() == old(self).search().note(
                *old(self).program,
                address,
                mode,
                source,
            ),
    {
        if self.program.text.contains(address) && !self.analysis.functions.contains_key(&address) {
            self.queue.push_back((address, mode, source));
        }
    }

    /// a value that may be the address of a function, odd for Thumb.
    fn code_pointer(&mut self, value: u32, source: Source)
        requires
            old(self).wf(),
        ensures
            final(self).wf(),
            final(self).program == old(self).program,
            final(self).search() == old(self).search().lead(*old(self).program, value, source),
    {
        if value & 1 != 0 {
            self.function(value & !1, Mode::Thumb, source);
        } else if value & 3 == 0 {
            self.function(value, Mode::Arm, source);
        }
    }

    fn call(&mut self, target: u32, mode: Mode)
        requires
            old(self).wf(),
        ensures
            final(self).wf(),
            final(self).program == old(self).program,
            final(self).search() == old(self).search().note(
                *old(self).program,
                target,
                mode,
                Source::Call,
            ),
    {
        self.function(target, mode, Source::Call);
    }

    fn decode(&self, address: u32, mode: Mode) -> (decoded: Option<(Instruction, u32)>)
        ensures
            decoded == instruction_at(self.program.text, address, mode),
    {
        match mode {
            Mode::Arm => match self.program.text.read32(address) {
                Some(word) => Some((arm::decode(word, address), 4)),
                None => None,
            },
            Mode::Thumb => match self.program.text.read16(address) {
                Some(half) => {
                    let next = self.program.text.read16(address.wrapping_add(2));
                    Some(thumb::decode(half, next, address))
                },
                None => None,
            },
        }
    }

    /// add pc, pc, rm lsl 2 jumps into a run of branches that starts right
    /// after it, the first of them the default case.
    fn branch_table(&mut self, address: u32, trail: &mut Trail)
        requires
            old(self).wf(),
        ensures
            final(self).wf(),
            final(self).program == old(self).program,
            final(trail).seen@ == old(trail).seen@,
            forall|at: Option<u32>| #[trigger]
                final(trail).walk(final(self).search(), at) == branch_table_walk(
                    *old(self).program,
                    old(trail).walk(old(self).search().count_table(), at),
                    address.wrapping_add(4),
                ),
    {
        bump(&mut self.analysis.jump_tables);
        let mut slot = address.wrapping_add(4);
        let ghost first = slot;
        let ghost start = old(trail).walk(self.search(), None);
        let ghost program = *self.program;
        let ghost mut over = false;
        assert(self.search() == old(self).search().count_table());
        loop
            invariant_except_break
                !over,
            invariant
                self.wf(),
                self.program == old(self).program,
                program == *self.program,
                trail.seen@ == old(trail).seen@,
                first == address.wrapping_add(4),
                start == old(trail).walk(old(self).search().count_table(), None),
                branch_table_walk(program, start, first) == (if over {
                    trail.walk(self.search(), None)
                } else {
                    branch_table_walk(program, trail.walk(self.search(), None), slot)
                }),
            ensures
                over,
            decreases 0x1_0000_0000 - slot,
        {
            let word = match self.program.text.read32(slot) {
                Some(word) => word,
                None => {
                    proof {
                        over = true;
                    }
                    break;
                },
            };
            let instruction = arm::decode(word, slot);
            let case = match instruction.flow {
                Flow::Branch { target, link } => if !link && !instruction.is_conditional() {
                    Some(target)
                } else {
                    None
                },
                _ => None,
            };
            let target = match case {
                Some(target) => target,
                None => {
                    proof {
                        over = true;
                    }
                    break;
                },
            };
            let ghost before = trail.walk(self.search(), None);
            self.mark(slot, 4, Byte::Code);
            trail.push(slot);
            if self.program.text.contains(target) {
                trail.push(target);
            }
            assert(trail.walk(self.search(), None) == case_walk(program, before, slot));
            if slot > 0xFFFF_FFFB {
                proof {
                    over = true;
                }
                break;
            }
            slot += 4;
        }
        proof {
            assert forall|at: Option<u32>| #[trigger]
                trail.walk(self.search(), at) == branch_table_walk(
                    program,
                    old(trail).walk(old(self).search().count_table(), at),
                    first,
                ) by {
                lemma_branch_table_at(program, start, first, at);
            }
        }
    }

    /// ldr pc, [pc, rm lsl 2] loads its target from the table of addresses
    /// right after the default branch. its size comes from the cmp just
    /// before it, or failing that from how far the entries keep pointing
    /// into the code.
    fn address_table(&mut self, address: u32, index: u32, trail: &mut Trail)
        requires
            old(self).wf(),
        ensures
            final(self).wf(),
            final(self).program == old(self).program,
            final(trail).seen@ == old(trail).seen@,
            forall|at: Option<u32>| #[trigger]
                final(trail).walk(final(self).search(), at) == address_table_walk(
                    *old(self).program,
                    old(trail).walk(old(self).search().count_table(), at),
                    address.wrapping_add(8),
                    table_size(old(self).program.text, address, index),
                ),
    {
        bump(&mut self.analysis.jump_tables);
        let previous = if address < 4 {
            None
        } else {
            self.program.text.read32(address - 4)
        };
        let compare = match previous {
            Some(word) => arm::compare_immediate(word),
            None => None,
        };
        let entries: u64 = match compare {
            Some((register, limit)) => if register == index {
                limit as u64 + 1
            } else {
                256
            },
            None => 256,
        };
        let mut slot = address.wrapping_add(8);
        let mut left = entries;
        let ghost first = slot;
        let ghost start = old(trail).walk(self.search(), None);
        let ghost program = *self.program;
        let ghost mut over = false;
        assert(entries == table_size(program.text, address, index));
        assert(self.search() == old(self).search().count_table());
        while left > 0
            invariant_except_break
                !over,
            invariant
                self.wf(),
                self.program == old(self).program,
                program == *self.program,
                trail.seen@ == old(trail).seen@,
                first == address.wrapping_add(8),
                start == old(trail).walk(old(self).search().count_table(), None),
                address_table_walk(program, start, first, entries as nat) == (if over {
                    trail.walk(self.search(), None)
                } else {
                    address_table_walk(program, trail.walk(self.search(), None), slot, left as nat)
                }),
            ensures
                over || left == 0,
            decreases left,
        {
            let target = match self.program.text.read32(slot) {
                Some(target) => target,
                None => {
                    proof {
                        over = true;
                    }
                    break;
                },
            };
            if !self.program.text.contains(target & !1) {
                proof {
                    over = true;
                }
                break;
            }
            self.mark(slot, 4, Byte::Literal);
            if target & 3 == 0 {
                trail.push(target);
            } else {
                self.code_pointer(target, Source::Pointer);
            }
            slot = slot.wrapping_add(4);
            left -= 1;
        }
        proof {
            assert forall|at: Option<u32>| #[trigger]
                trail.walk(self.search(), at) == address_table_walk(
                    program,
                    old(trail).walk(old(self).search().count_table(), at),
                    first,
                    entries as nat,
                ) by {
                lemma_address_table_at(program, start, first, entries as nat, at);
            }
        }
    }

    /// what the word at literal, which the code loads, gives away.
    fn literal(&mut self, literal: u32, size: u32)
        requires
            old(self).wf(),
        ensures
            final(self).wf(),
            final(self).program == old(self).program,
            final(self).search() == literal_search(
                *old(self).program,
                old(self).search(),
                literal,
                size,
            ),
    {
        // a load from something already decoded as code is left alone
        if self.program.text.contains(literal) && self.byte(literal) != Byte::Code {
            self.mark(literal, size, Byte::Literal);
            let pointer = match &self.program.slots {
                Some(slots) => slots.contains(&literal),
                None => true,
            };
            if size == 4 && pointer {
                if let Some(value) = self.program.text.read32(literal) {
                    self.code_pointer(value, Source::Pointer);
                }
            }
        }
    }

    /// everything the instruction at address leads to but the one after it.
    fn follow(&mut self, trail: &mut Trail, mode: Mode, address: u32, flow: Flow)
        requires
            old(self).wf(),
        ensures
            final(self).wf(),
            final(self).program == old(self).program,
            final(trail).seen@ == old(trail).seen@,
            forall|at: Option<u32>| #[trigger]
                final(trail).walk(final(self).search(), at) == flow_walk(
                    *old(self).program,
                    mode,
                    old(trail).walk(old(self).search(), at),
                    address,
                    flow,
                ),
    {
        match flow {
            Flow::Branch { target, link } => {
                if link {
                    self.call(target, mode);
                } else if self.program.text.contains(target) {
                    trail.push(target);
                }
            },
            Flow::BranchToThumb { target } => self.call(target, Mode::Thumb),
            Flow::CallOtherMode { target } => self.call(target, mode.other()),
            Flow::BranchRegister { .. } | Flow::IndirectJump => {
                bump(&mut self.analysis.indirect_sites);
                assert(self.search() == old(self).search().count_indirect());
            },
            Flow::JumpTable => self.branch_table(address, trail),
            Flow::AddressTable { index } => self.address_table(address, index, trail),
            Flow::LoadPcLiteral { literal } => {
                self.mark(literal, 4, Byte::Literal);
                if let Some(target) = self.program.text.read32(literal) {
                    self.code_pointer(target, Source::Pointer);
                }
            },
            Flow::LiteralLoad { literal, size } => self.literal(literal, size),
            Flow::Svc => {
                bump(&mut self.analysis.svc_sites);
                assert(self.search() == old(self).search().count_svc());
            },
            Flow::Return | Flow::Undefined | Flow::Other => {},
        }
    }

    /// the path at address taken one instruction further, to where it goes
    /// on unless it is over.
    fn visit(&mut self, trail: &mut Trail, mode: Mode, address: u32) -> (at: Option<u32>)
        requires
            old(self).wf(),
        ensures
            final(self).wf(),
            final(self).program == old(self).program,
            final(trail).walk(final(self).search(), at) == walk_step(
                *old(self).program,
                mode,
                old(trail).walk(old(self).search(), Some(address)),
            ),
            final(trail).seen@ != old(trail).seen@ ==> final(trail).seen@ == old(
                trail,
            ).seen@.insert(address) && !old(trail).seen@.contains(address),
            final(trail).seen@ == old(trail).seen@ ==> at is None && final(trail).blocks@ == old(
                trail,
            ).blocks@,
    {
        reveal(walk_step);
        if !self.program.text.contains(address) || trail.seen.contains(&address) {
            return None;
        }
        trail.seen.insert(address);
        if self.byte(address) == Byte::Literal {
            // ran into a literal pool, the path is wrong or it ended
            return None;
        }
        let (instruction, size) = match self.decode(address, mode) {
            Some(decoded) => decoded,
            None => return None,
        };
        let flow = instruction.flow;
        if flow == Flow::Undefined {
            bump(&mut self.analysis.dead_ends);
            assert(self.search() == old(self).search().count_dead_end());
            return None;
        }
        self.mark(address, size, Byte::Code);
        trail.decoded.insert(address);
        let next = address.wrapping_add(size);
        let ends = match flow {
            Flow::Other | Flow::LiteralLoad { .. } => false,
            _ => true,
        };
        if ends {
            trail.starts.insert(next);
        }
        let ghost split = trail.walk(self.search(), Some(address));
        self.follow(trail, mode, address, flow);
        assert(trail.walk(self.search(), Some(address)) == flow_walk(
            *self.program,
            mode,
            split,
            address,
            flow,
        ));
        let left = match flow {
            Flow::Branch { link, .. } | Flow::BranchRegister { link, .. } => !link
                && !instruction.is_conditional(),
            Flow::JumpTable => true,
            Flow::Return
            | Flow::AddressTable { .. }
            | Flow::IndirectJump
            | Flow::LoadPcLiteral { .. } => !instruction.is_conditional(),
            _ => false,
        };
        if left {
            None
        } else {
            Some(next)
        }
    }

    /// follows every path through one function, giving its instructions and
    /// its labels. what was known stays known, and from outside the text
    /// nothing comes.
    pub fn explore(&mut self, entry: u32, mode: Mode) -> (body: (Vec<u32>, BTreeSet<u32>))
        requires
            old(self).wf(),
        ensures
            final(self).wf(),
            final(self).program == old(self).program,
            ({
                let walk = walked(*old(self).program, mode, walk_from(old(self).search(), entry));
                &&& final(self).search() == walk.search
                &&& sorted::lists(body.0@, walk.instructions)
                &&& body.1@ == walk.starts.intersect(walk.instructions)
            }),
            old(self).search().added_to(final(self).search()),
            !old(self).program.text.holds(entry) ==> final(self).search() == old(self).search()
                && body.0@.len() == 0,
    {
        let mut trail = Trail {
            blocks: Vec::new(),
            seen: BTreeSet::new(),
            decoded: BTreeSet::new(),
            starts: BTreeSet::new(),
        };
        trail.push(entry);
        let ghost program = *self.program;
        let ghost start = trail.walk(self.search(), None);
        assert(start == walk_from(old(self).search(), entry));
        let ghost mut steps: nat = 0;
        while trail.blocks.len() > 0
            invariant
                self.wf(),
                self.program == old(self).program,
                program == *self.program,
                walk_steps(program, mode, start, steps) == trail.walk(self.search(), None),
                trail.seen@.finite(),
            decreases 0x1_0000_0000 - trail.seen@.len(), trail.blocks.len(),
        {
            let ghost seen = trail.seen@;
            let ghost blocks = trail.blocks@.len();
            let mut at = trail.blocks.pop();
            proof {
                reveal(walk_step);
                steps = steps + 1;
                lemma_addresses_finite(seen);
            }
            loop
                invariant
                    self.wf(),
                    self.program == old(self).program,
                    program == *self.program,
                    walk_steps(program, mode, start, steps) == trail.walk(self.search(), at),
                    trail.seen@.finite(),
                    seen.finite(),
                    seen.subset_of(trail.seen@),
                    trail.seen@ != seen || trail.blocks@.len() < blocks,
                ensures
                    at is None,
                decreases
                    0x1_0000_0000 - trail.seen@.len(),
                    (if at is Some {
                        1int
                    } else {
                        0int
                    }),
            {
                let ghost before = trail.seen@;
                let address = match at {
                    Some(address) => address,
                    None => break,
                };
                at = self.visit(&mut trail, mode, address);
                proof {
                    steps = steps + 1;
                    lemma_addresses_finite(before);
                    lemma_addresses_finite(trail.seen@);
                }
            }
            proof {
                lemma_addresses_finite(trail.seen@);
                if trail.seen@ != seen {
                    vstd::set_lib::lemma_len_subset(seen, trail.seen@);
                    if trail.seen@.len() == seen.len() {
                        vstd::set_lib::lemma_subset_equality(seen, trail.seen@);
                    }
                }
            }
        }
        proof {
            lemma_walk_over(program, mode, start, steps);
        }
        let instructions = sorted::sorted_items(&trail.decoded);
        let mut labels: BTreeSet<u32> = BTreeSet::new();
        for i in 0..instructions.len()
            invariant
                forall|label: u32| #[trigger]
                    labels@.contains(label) <==> trail.starts@.contains(label) && exists|j: int|
                        0 <= j < i && #[trigger] instructions@[j] == label,
        {
            if trail.starts.contains(&instructions[i]) {
                labels.insert(instructions[i]);
            }
        }
        assert(labels@ =~= trail.starts@.intersect(trail.decoded@)) by {
            assert forall|label: u32| labels@.contains(label) <==> trail.starts@.contains(label)
                && trail.decoded@.contains(label) by {
                if trail.decoded@.contains(label) {
                    assert(instructions@.contains(label));
                }
            }
        }
        proof {
            laws::law_walk_only_adds(program, mode, old(self).search(), entry);
            if !program.text.holds(entry) && instructions@.len() > 0 {
                assert(trail.decoded@.contains(instructions@[0]));
            }
        }
        (instructions, labels)
    }

    /// queues the seeds that are pointers, or the ones that are not.
    fn seeds(&mut self, pointers: bool)
        requires
            old(self).wf(),
        ensures
            final(self).wf(),
            final(self).program == old(self).program,
            final(self).search() == seeded(
                *old(self).program,
                old(self).search(),
                pointers,
                old(self).program.seeds@.len(),
            ),
    {
        let count = self.program.seeds.len();
        for i in 0..count
            invariant
                self.wf(),
                self.program == old(self).program,
                count == self.program.seeds@.len(),
                self.search() == seeded(*self.program, old(self).search(), pointers, i as nat),
        {
            let (value, source) = self.program.seeds[i];
            let ghost before = self.search();
            if (source == Source::Pointer) == pointers {
                if source == Source::Entry {
                    self.queue.push_back((value, Mode::Arm, Source::Entry));
                    assert(self.search() == seed(*self.program, before, (value, source)));
                } else {
                    self.code_pointer(value, source);
                }
            }
        }
    }

    /// looks into the functions in the queue until it is empty.
    fn run(&mut self)
        requires
            old(self).wf(),
        ensures
            final(self).wf(),
            final(self).program == old(self).program,
            final(self).search() == searched(*old(self).program, old(self).search()),
            final(self).search().queue.len() == 0,
    {
        let ghost program = *self.program;
        let ghost start = self.search();
        let ghost mut steps: nat = 0;
        loop
            invariant
                self.wf(),
                self.program == old(self).program,
                program == *self.program,
                search_steps(program, start, steps) == self.search(),
            ensures
                self.queue@.len() == 0,
            decreases 0x1_0000_0000 - self.analysis@.functions.dom().len(), self.queue@.len(),
        {
            let ghost before = self.search();
            let (entry, mode, source) = match self.queue.pop_front() {
                Some(next) => next,
                None => break,
            };
            let ghost rest = Search { queue: before.queue.drop_first(), ..before };
            assert(self.search() == rest);
            if !self.analysis.functions.contains_key(&entry) {
                let (instructions, labels) = self.explore(entry, mode);
                let ghost found = self.search().found;
                let function = Function { source, mode, instructions, labels };
                let ghost walk = walked(program, mode, walk_from(rest, entry));
                proof {
                    assert(instructions@.to_set() =~= walk.instructions);
                    lemma_walk_keeps_functions(program, mode, rest, entry);
                }
                self.analysis.functions.insert(entry, function);
                proof {
                    assert(self.analysis@.functions =~= found.functions.insert(
                        entry,
                        function.known(),
                    ));
                    lemma_addresses_finite(self.analysis@.functions.dom());
                    lemma_addresses_finite(before.found.functions.dom());
                    assert(self.analysis@.functions.dom() =~= before.found.functions.dom().insert(
                        entry,
                    ));
                }
            }
            proof {
                steps = steps + 1;
            }
        }
        proof {
            lemma_search_over(program, start, steps);
        }
    }
}

/// a walk looks at no other function.
pub proof fn lemma_walk_keeps_functions(program: Program, mode: Mode, search: Search, entry: u32)
    ensures
        walked(program, mode, walk_from(search, entry)).search.found.functions
            == search.found.functions,
{
    let start = walk_from(search, entry);
    let count = choose|count: nat| #[trigger] walk_steps(program, mode, start, count).done();
    lemma_steps_keep_functions(program, mode, start, count);
}

pub proof fn lemma_steps_keep_functions(program: Program, mode: Mode, walk: Walk, count: nat)
    ensures
        walk_steps(program, mode, walk, count).search.found.functions
            == walk.search.found.functions,
    decreases count,
{
    if count > 0 {
        lemma_steps_keep_functions(program, mode, walk, (count - 1) as nat);
        lemma_step_keeps_functions(
            program,
            mode,
            walk_steps(program, mode, walk, (count - 1) as nat),
        );
    }
}

pub proof fn lemma_step_keeps_functions(program: Program, mode: Mode, walk: Walk)
    ensures
        walk_step(program, mode, walk).search.found.functions == walk.search.found.functions,
{
    reveal(walk_step);
    if let Some(address) = walk.at {
        if let Some((instruction, size)) = instruction_at(program.text, address, mode) {
            let seen = Walk { seen: walk.seen.insert(address), ..walk };
            let decoded = Walk {
                search: seen.search.mark(program, address, size, Byte::Code),
                instructions: seen.instructions.insert(address),
                ..seen
            };
            let split = if ends_block(instruction.flow) {
                decoded.begins_block(address.wrapping_add(size))
            } else {
                decoded
            };
            let counted = split.with_search(split.search.count_table());
            lemma_branch_table_keeps_functions(program, counted, address.wrapping_add(4));
            if let Flow::AddressTable { index } = instruction.flow {
                lemma_address_table_keeps_functions(
                    program,
                    counted,
                    address.wrapping_add(8),
                    table_size(program.text, address, index),
                );
            }
        }
    }
}

proof fn lemma_branch_table_keeps_functions(program: Program, walk: Walk, slot: u32)
    ensures
        branch_table_walk(program, walk, slot).search.found.functions
            == walk.search.found.functions,
    decreases 0x1_0000_0000 - slot,
{
    if is_case(program.text, slot) && slot + 4 < 0x1_0000_0000 {
        let next = case_walk(program, walk, slot);
        lemma_branch_table_keeps_functions(program, next, (slot + 4) as u32);
    }
}

proof fn lemma_address_table_keeps_functions(program: Program, walk: Walk, slot: u32, left: nat)
    ensures
        address_table_walk(program, walk, slot, left).search.found.functions
            == walk.search.found.functions,
    decreases left,
{
    if left > 0 && program.text.word_at(slot) is Some {
        let target = program.text.word_at(slot)->0;
        let search = walk.search.mark(program, slot, 4, Byte::Literal);
        let next = if target & 3 == 0 {
            walk.with_search(search).block(target)
        } else {
            walk.with_search(search.lead(program, target, Source::Pointer))
        };
        lemma_address_table_keeps_functions(program, next, slot.wrapping_add(4), (left - 1) as nat);
    }
}

/// a search that is over stays as it is.
pub proof fn lemma_search_over(program: Program, search: Search, count: nat)
    requires
        search_steps(program, search, count).queue.len() == 0,
    ensures
        searched(program, search) == search_steps(program, search, count),
{
    let chosen = choose|n: nat| #[trigger] search_steps(program, search, n).queue.len() == 0;
    lemma_search_stays(program, search, count, chosen);
    lemma_search_stays(program, search, chosen, count);
}

proof fn lemma_search_stays(program: Program, search: Search, count: nat, later: nat)
    requires
        search_steps(program, search, count).queue.len() == 0,
    ensures
        count <= later ==> search_steps(program, search, later) == search_steps(
            program,
            search,
            count,
        ),
    decreases later,
{
    if count < later {
        lemma_search_stays(program, search, count, (later - 1) as nat);
    }
}

/// there are only so many addresses.
pub proof fn lemma_addresses_finite(addresses: Set<u32>)
    ensures
        addresses.finite(),
        addresses.len() <= 0x1_0000_0000,
{
    let all = vstd::set_lib::set_int_range(0, 0x1_0000_0000);
    vstd::set_lib::lemma_int_range(0, 0x1_0000_0000);
    let numbers = addresses.map(|address: u32| address as int);
    assert(numbers.subset_of(all));
    vstd::set_lib::lemma_len_subset(numbers, all);
    assert(numbers.map(|number: int| number as u32) =~= addresses) by {
        assert forall|address: u32| addresses.contains(address) implies numbers.map(
            |number: int| number as u32,
        ).contains(address) by {
            assert(numbers.contains(address as int));
        }
    }
    vstd::set_lib::lemma_map_size_bound(numbers, addresses, |number: int| number as u32);
}

/// a walk that is over stays as it is.
pub proof fn lemma_walk_over(program: Program, mode: Mode, walk: Walk, count: nat)
    requires
        walk_steps(program, mode, walk, count).done(),
    ensures
        walked(program, mode, walk) == walk_steps(program, mode, walk, count),
{
    let chosen = choose|n: nat| #[trigger] walk_steps(program, mode, walk, n).done();
    lemma_walk_stays(program, mode, walk, count, chosen);
    lemma_walk_stays(program, mode, walk, chosen, count);
}

proof fn lemma_walk_stays(program: Program, mode: Mode, walk: Walk, count: nat, later: nat)
    requires
        walk_steps(program, mode, walk, count).done(),
    ensures
        count <= later ==> walk_steps(program, mode, walk, later) == walk_steps(
            program,
            mode,
            walk,
            count,
        ),
    decreases later,
{
    reveal(walk_step);
    if count < later {
        lemma_walk_stays(program, mode, walk, count, (later - 1) as nat);
    }
}

/// a table of branches is read the same way from any path.
proof fn lemma_branch_table_at(program: Program, walk: Walk, slot: u32, at: Option<u32>)
    ensures
        branch_table_walk(program, Walk { at, ..walk }, slot) == (Walk {
            at,
            ..branch_table_walk(program, walk, slot)
        }),
    decreases 0x1_0000_0000 - slot,
{
    if is_case(program.text, slot) && slot + 4 < 0x1_0000_0000 {
        let next = case_walk(program, walk, slot);
        lemma_branch_table_at(program, next, (slot + 4) as u32, at);
    }
}

/// a table of addresses is read the same way from any path.
proof fn lemma_address_table_at(program: Program, walk: Walk, slot: u32, left: nat, at: Option<u32>)
    ensures
        address_table_walk(program, Walk { at, ..walk }, slot, left) == (Walk {
            at,
            ..address_table_walk(program, walk, slot, left)
        }),
    decreases left,
{
    if left > 0 && program.text.word_at(slot) is Some {
        let target = program.text.word_at(slot)->0;
        let search = walk.search.mark(program, slot, 4, Byte::Literal);
        let next = if target & 3 == 0 {
            walk.with_search(search).block(target)
        } else {
            walk.with_search(search.lead(program, target, Source::Pointer))
        };
        lemma_address_table_at(program, next, slot.wrapping_add(4), (left - 1) as nat, at);
    }
}

} // verus!
