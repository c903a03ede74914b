//! just enough ARM decoding to follow control flow. every instruction that
//! does not change where execution goes, or point at data inside the code,
//! is simply Other.

use vstd::prelude::*;

pub mod laws;

verus! {

/// the condition field value meaning always.
pub const ALWAYS: u32 = 0xE;

pub const PC: u32 = 15;

pub const LR: u32 = 14;

pub const SP: u32 = 13;

#[derive(Debug, Clone, Copy, PartialEq, Eq, Structural)]
pub enum Flow {
    /// b or bl to a known address.
    Branch { target: u32, link: bool },
    /// blx to a known address out of ARM code, which switches to Thumb.
    BranchToThumb { target: u32 },
    /// blx to a known address out of Thumb code, which switches to ARM.
    CallOtherMode { target: u32 },
    /// bx or blx through a register.
    BranchRegister { register: u32, link: bool },
    /// bx lr, pop with pc, mov pc lr and the like.
    Return,
    /// add pc, pc, rm lsl 2, followed by a table of branches.
    JumpTable,
    /// ldr pc, [pc, rm lsl 2], followed by a table of addresses.
    AddressTable { index: u32 },
    /// any other write to pc whose target is not known statically.
    IndirectJump,
    /// ldr pc from a literal, whose value is the target.
    LoadPcLiteral { literal: u32 },
    /// a load from a literal pool inside the code.
    LiteralLoad { literal: u32, size: u32 },
    Svc,
    /// something that cannot be code.
    Undefined,
    Other,
}

#[derive(Debug, Clone, Copy, PartialEq, Eq, Structural)]
pub struct Instruction {
    pub condition: u32,
    pub flow: Flow,
}

impl Instruction {
    /// the instruction may be skipped over.
    pub open spec fn conditional(self) -> bool {
        self.condition != ALWAYS
    }

    pub fn is_conditional(self) -> (answer: bool)
        ensures
            answer == self.conditional(),
    {
        self.condition != ALWAYS
    }
}

/// whether the bit of word at position is set.
pub open spec fn bit(word: u32, position: u32) -> bool {
    word & (1u32 << position) != 0
}

/// what a 24 bit two's complement field stands for.
pub open spec fn signed_24(field: u32) -> int {
    if field < 0x80_0000 {
        field as int
    } else {
        field - 0x100_0000
    }
}

/// how far a b, bl or blx jumps from its pc.
pub open spec fn branch_offset(word: u32) -> int {
    4 * signed_24(word & 0x00FF_FFFF)
}

/// the address offset past pc, both of them wrapping around.
pub open spec fn displaced(pc: u32, offset: int) -> u32 {
    ((pc + offset) % 0x1_0000_0000) as u32
}

/// b, bl, or in the unconditional space blx to an address.
pub open spec fn is_branch(word: u32) -> bool {
    word & 0x0E00_0000 == 0x0A00_0000
}

/// bx or blx through a register.
pub open spec fn is_branch_exchange(word: u32) -> bool {
    word & 0x0FFF_FFD0 == 0x012F_FF10
}

/// the media instructions, which share their space with the loads and stores
/// that have a register offset.
pub open spec fn is_media(word: u32) -> bool {
    word & 0x0E00_0010 == 0x0600_0010
}

/// ldr pc, [pc, rm lsl 2].
pub open spec fn is_address_table(word: u32) -> bool {
    word & 0x0FFF_FFF0 == 0x079F_F100
}

/// where a load from pc plus or minus offset reads, bit 23 giving the sign.
pub open spec fn literal_at(word: u32, pc: u32, offset: u32) -> u32 {
    if bit(word, 23) {
        displaced(pc, offset as int)
    } else {
        displaced(pc, -offset)
    }
}

/// the flow of ldr and str with a word or byte.
pub open spec fn single_transfer_flow(word: u32, pc: u32) -> Flow {
    let rd = (word >> 12) & 0xF;
    let rn = (word >> 16) & 0xF;
    if !bit(word, 20) {
        Flow::Other
    } else if is_address_table(word) {
        Flow::AddressTable { index: word & 0xF }
    } else if rn == PC && !bit(word, 25) && bit(word, 24) {
        let literal = literal_at(word, pc, word & 0xFFF);
        if rd == PC {
            Flow::LoadPcLiteral { literal }
        } else {
            Flow::LiteralLoad {
                literal,
                size: if bit(word, 22) {
                    1
                } else {
                    4
                },
            }
        }
    } else if rd != PC {
        Flow::Other
    } else if rn == SP && !bit(word, 24) {
        // ldr pc, [sp], 4 is a pop
        Flow::Return
    } else {
        Flow::IndirectJump
    }
}

/// the flow of the data processing instructions, which matters when they
/// write pc.
pub open spec fn data_processing_flow(word: u32) -> Flow {
    let rd = (word >> 12) & 0xF;
    let rn = (word >> 16) & 0xF;
    let opcode = (word >> 21) & 0xF;
    let immediate = bit(word, 25);
    let shift = (word >> 4) & 0xFF;
    if !immediate && word & 0x90 == 0x90 {
        // multiplies and the extra loads and stores share this space
        Flow::Other
    } else if 8 <= opcode <= 11 || rd != PC {
        Flow::Other
    } else if opcode == 0xD && !immediate && word & 0xF == LR && shift == 0 {
        Flow::Return
    } else if opcode == 0x4 && !immediate && rn == PC && shift == 0x10 && !bit(word, 20) {
        Flow::JumpTable
    } else {
        Flow::IndirectJump
    }
}

/// where the instruction word at address leads.
pub open spec fn flow_of(word: u32, address: u32) -> Flow {
    let pc = address.wrapping_add(8);
    let rn = (word >> 16) & 0xF;
    if word >> 28 == 0xF {
        if is_branch(word) {
            Flow::BranchToThumb {
                target: displaced(pc, branch_offset(word) + 2 * ((word >> 24) & 1)),
            }
        } else {
            Flow::Other
        }
    } else if is_branch(word) {
        Flow::Branch { target: displaced(pc, branch_offset(word)), link: bit(word, 24) }
    } else if is_branch_exchange(word) {
        let register = word & 0xF;
        let link = bit(word, 5);
        if register == LR && !link {
            Flow::Return
        } else {
            Flow::BranchRegister { register, link }
        }
    } else if word & 0x0F00_0000 == 0x0F00_0000 {
        Flow::Svc
    } else if is_media(word) {
        Flow::Other
    } else if word & 0x0C00_0000 == 0x0400_0000 {
        single_transfer_flow(word, pc)
    } else if word & 0x0E00_0000 == 0x0800_0000 {
        // ldm with pc in the list
        if bit(word, 20) && bit(word, 15) {
            if rn == SP {
                Flow::Return
            } else {
                Flow::IndirectJump
            }
        } else {
            Flow::Other
        }
    } else if word & 0x0F30_0E00 == 0x0D10_0A00 && rn == PC {
        // vldr from a literal
        Flow::LiteralLoad {
            literal: literal_at(word, pc & !3, ((word & 0xFF) * 4) as u32),
            size: if bit(word, 8) {
                8
            } else {
                4
            },
        }
    } else if word & 0x0C00_0000 == 0 {
        data_processing_flow(word)
    } else {
        Flow::Other
    }
}

/// the fields of an instruction stay inside their widths.
pub proof fn lemma_fields(word: u32)
    by (bit_vector)
    ensures
        word & 0xF <= 0xF,
        word & 0xFF <= 0xFF,
        word & 0xFFF <= 0xFFF,
        word & 0x7FF <= 0x7FF,
        word & 0x00FF_FFFF <= 0x00FF_FFFF,
        (word >> 24) & 1 <= 1,
        (word >> 8) & 0xF <= 0xF,
        word >> 28 <= 0xF,
{
}

fn sign_extend_24(value: u32) -> (extended: i32)
    requires
        value <= 0x00FF_FFFF,
    ensures
        extended == signed_24(value),
{
    if value < 0x80_0000 {
        value as i32
    } else {
        value as i32 - 0x100_0000
    }
}

/// the address offset past pc.
pub fn displace(pc: u32, offset: i32) -> (address: u32)
    ensures
        address == displaced(pc, offset as int),
{
    pc.wrapping_add_signed(offset)
}

/// where a load from pc plus or minus offset reads.
fn literal_address(word: u32, pc: u32, offset: u32) -> (literal: u32)
    requires
        offset <= 0xFFF,
    ensures
        literal == literal_at(word, pc, offset),
{
    if word & (1 << 23) != 0 {
        displace(pc, offset as i32)
    } else {
        displace(pc, -(offset as i32))
    }
}

pub fn decode(word: u32, address: u32) -> (instruction: Instruction)
    ensures
        instruction.condition == word >> 28,
        instruction.flow == flow_of(word, address),
{
    proof {
        lemma_fields(word);
    }
    let condition = word >> 28;
    let pc = address.wrapping_add(8);
    let rd = (word >> 12) & 0xF;
    let rn = (word >> 16) & 0xF;

    let flow = if condition == 0xF {
        // the unconditional space, only blx immediate matters here
        if word & 0x0E00_0000 == 0x0A00_0000 {
            let half = (word >> 24) & 1;
            let offset = sign_extend_24(word & 0x00FF_FFFF) * 4 + half as i32 * 2;
            Flow::BranchToThumb { target: displace(pc, offset) }
        } else {
            Flow::Other
        }
    } else if word & 0x0E00_0000 == 0x0A00_0000 {
        let offset = sign_extend_24(word & 0x00FF_FFFF) * 4;
        Flow::Branch { target: displace(pc, offset), link: word & (1 << 24) != 0 }
    } else if word & 0x0FFF_FFD0 == 0x012F_FF10 {
        let register = word & 0xF;
        let link = word & (1 << 5) != 0;
        if register == LR && !link {
            Flow::Return
        } else {
            Flow::BranchRegister { register, link }
        }
    } else if word & 0x0F00_0000 == 0x0F00_0000 {
        Flow::Svc
    } else if word & 0x0E00_0010 == 0x0600_0010 {
        Flow::Other
    } else if word & 0x0C00_0000 == 0x0400_0000 {
        single_transfer(word, pc, rd, rn)
    } else if word & 0x0E00_0000 == 0x0800_0000 {
        // ldm with pc in the list
        let load = word & (1 << 20) != 0;
        if load && word & (1 << 15) != 0 {
            if rn == SP {
                Flow::Return
            } else {
                Flow::IndirectJump
            }
        } else {
            Flow::Other
        }
    } else if word & 0x0F30_0E00 == 0x0D10_0A00 && rn == PC {
        // vldr from a literal
        let offset = (word & 0xFF) * 4;
        let literal = literal_address(word, pc & !3, offset);
        let size: u32 = if word & (1 << 8) != 0 {
            8
        } else {
            4
        };
        Flow::LiteralLoad { literal, size }
    } else if word & 0x0C00_0000 == 0 {
        data_processing(word, rd, rn)
    } else {
        Flow::Other
    };
    Instruction { condition, flow }
}

/// ldr and str with a word or byte.
fn single_transfer(word: u32, pc: u32, rd: u32, rn: u32) -> (flow: Flow)
    requires
        rd == (word >> 12) & 0xF,
        rn == (word >> 16) & 0xF,
    ensures
        flow == single_transfer_flow(word, pc),
{
    proof {
        lemma_fields(word);
    }
    let load = word & (1 << 20) != 0;
    let register_offset = word & (1 << 25) != 0;
    if !load {
        return Flow::Other;
    }
    if word & 0x0FFF_FFF0 == 0x079F_F100 {
        return Flow::AddressTable { index: word & 0xF };
    }
    if rn == PC && !register_offset && word & (1 << 24) != 0 {
        let offset = word & 0xFFF;
        let literal = literal_address(word, pc, offset);
        let size: u32 = if word & (1 << 22) != 0 {
            1
        } else {
            4
        };
        return if rd == PC {
            Flow::LoadPcLiteral { literal }
        } else {
            Flow::LiteralLoad { literal, size }
        };
    }
    if rd == PC {
        // ldr pc, [sp], 4 is a pop
        if rn == SP && word & (1 << 24) == 0 {
            Flow::Return
        } else {
            Flow::IndirectJump
        }
    } else {
        Flow::Other
    }
}

fn data_processing(word: u32, rd: u32, rn: u32) -> (flow: Flow)
    requires
        rd == (word >> 12) & 0xF,
        rn == (word >> 16) & 0xF,
    ensures
        flow == data_processing_flow(word),
{
    let immediate = word & (1 << 25) != 0;
    // multiplies and the extra loads and stores share this space
    if !immediate && word & 0x90 == 0x90 {
        return Flow::Other;
    }
    let opcode = (word >> 21) & 0xF;
    let sets_flags = word & (1 << 20) != 0;
    // tst teq cmp cmn write no register, and without s they are misc instructions
    if (8 <= opcode && opcode <= 11) || rd != PC {
        return Flow::Other;
    }
    let rm = word & 0xF;
    let shift = (word >> 4) & 0xFF;
    if opcode == 0xD && !immediate && rm == LR && shift == 0 {
        // mov pc, lr
        Flow::Return
    } else if opcode == 0x4 && !immediate && rn == PC && shift == 0x10 && !sets_flags {
        // add pc, pc, rm lsl 2
        Flow::JumpTable
    } else {
        Flow::IndirectJump
    }
}

/// value with its low bits moved around to the top.
pub open spec fn rotated_right(value: u32, amount: u32) -> u32 {
    if amount == 0 {
        value
    } else {
        (value >> amount) | (value << ((32 - amount) as u32))
    }
}

/// the value of an immediate operand, eight bits rotated by an even amount.
pub open spec fn immediate_of(word: u32) -> u32 {
    rotated_right(word & 0xFF, (((word >> 8) & 0xF) * 2) as u32)
}

/// the register and value of cmp with an immediate.
pub open spec fn compare_of(word: u32) -> Option<(u32, u32)> {
    if word >> 28 != 0xF && word & 0x0FF0_0000 == 0x0350_0000 {
        Some(((word >> 16) & 0xF, immediate_of(word)))
    } else {
        None
    }
}

pub fn rotate_right(value: u32, amount: u32) -> (rotated: u32)
    requires
        amount < 32,
    ensures
        rotated == rotated_right(value, amount),
{
    if amount == 0 {
        value
    } else {
        (value >> amount) | (value << (32 - amount))
    }
}

/// the value of an immediate operand.
pub fn immediate(word: u32) -> (value: u32)
    ensures
        value == immediate_of(word),
{
    proof {
        lemma_fields(word);
    }
    rotate_right(word & 0xFF, ((word >> 8) & 0xF) * 2)
}

/// what a cmp with an immediate compares, its register and the value.
pub fn compare_immediate(word: u32) -> (compare: Option<(u32, u32)>)
    ensures
        compare == compare_of(word),
{
    if word >> 28 != 0xF && word & 0x0FF0_0000 == 0x0350_0000 {
        Some(((word >> 16) & 0xF, immediate(word)))
    } else {
        None
    }
}

/// whether the bit of word at position is set.
pub fn bit_set(word: u32, position: u32) -> (set: bool)
    requires
        position < 32,
    ensures
        set == bit(word, position),
{
    word & (1u32 << position) != 0
}

/// where a b or bl at address goes.
pub fn branch_target(word: u32, address: u32) -> (target: u32)
    ensures
        target == displaced(address.wrapping_add(8), branch_offset(word)),
{
    proof {
        lemma_fields(word);
    }
    displace(address.wrapping_add(8), sign_extend_24(word & 0x00FF_FFFF) * 4)
}

/// where a blx to an address at address goes.
pub fn exchange_target(word: u32, address: u32) -> (target: u32)
    ensures
        target == displaced(
            address.wrapping_add(8),
            branch_offset(word) + 2 * ((word >> 24) & 1),
        ),
{
    proof {
        lemma_fields(word);
    }
    let half = (word >> 24) & 1;
    displace(
        address.wrapping_add(8),
        sign_extend_24(word & 0x00FF_FFFF) * 4 + half as i32 * 2,
    )
}

} // verus!
