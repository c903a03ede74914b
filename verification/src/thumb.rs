//! just enough Thumb decoding to follow control flow. the ARM11 is ARMv6K,
//! so this is Thumb-1, where only the bl and blx pairs take 32 bits.

use crate::arm;
use crate::arm::{Flow, Instruction, ALWAYS};
use vstd::prelude::*;

pub mod laws;

verus! {

pub const LR: u16 = 14;

/// what an 8 bit two's complement field stands for.
pub open spec fn signed_8(field: u32) -> int {
    if field < 0x80 {
        field as int
    } else {
        field - 0x100
    }
}

/// what an 11 bit two's complement field stands for.
pub open spec fn signed_11(field: u32) -> int {
    if field < 0x400 {
        field as int
    } else {
        field - 0x800
    }
}

/// where the bl or blx pair of halfword and second at pc goes, before blx
/// aligns it.
pub open spec fn pair_target(halfword: u16, second: u16, pc: u32) -> u32 {
    arm::displaced(pc, signed_11(halfword as u32 & 0x7FF) * 0x1000 + 2 * ((second & 0x7FF) as u32))
}

/// the instructions outside the branch, literal and pair spaces.
pub open spec fn other_flow(halfword: u16) -> Flow {
    let source = (halfword >> 3) & 0xF;
    if halfword & 0xFF00 == 0xBD00 {
        // pop with pc
        Flow::Return
    } else if halfword & 0xFF07 == 0x4700 {
        // bx and blx through a register
        let link = halfword & 0x80 != 0;
        if source == LR && !link {
            Flow::Return
        } else {
            Flow::BranchRegister { register: source as u32, link }
        }
    } else if halfword & 0xFD87 == 0x4487 {
        // mov and add on high registers with pc as the destination, where
        // cmp only reads it
        if halfword & 0x0300 == 0x0200 && source == LR {
            Flow::Return
        } else {
            Flow::IndirectJump
        }
    } else {
        Flow::Other
    }
}

/// whether halfword and the one after it are a bl or blx pair.
pub open spec fn is_pair(halfword: u16, next: Option<u16>) -> bool {
    halfword >> 11 == 0b11110 && (next matches Some(second) && (second >> 11 == 0b11111 || second >> 11 == 0b11101))
}

/// the bytes the instruction at halfword takes.
pub open spec fn size_of(halfword: u16, next: Option<u16>) -> u32 {
    if is_pair(halfword, next) {
        4
    } else {
        2
    }
}

/// the condition the instruction runs under.
pub open spec fn condition_of(halfword: u16) -> u32 {
    if halfword >> 11 == 0b11010 || halfword >> 11 == 0b11011 {
        (halfword as u32 >> 8) & 0xF
    } else {
        ALWAYS
    }
}

/// where the instruction at address leads.
pub open spec fn flow_of(halfword: u16, next: Option<u16>, address: u32) -> Flow {
    let pc = address.wrapping_add(4);
    let word = halfword as u32;
    let top = halfword >> 11;
    if top == 0b11010 || top == 0b11011 {
        // conditional branch, with svc and undefined in the last two conditions
        if (word >> 8) & 0xF == 0xF {
            Flow::Svc
        } else if (word >> 8) & 0xF == 0xE {
            Flow::Undefined
        } else {
            Flow::Branch { target: arm::displaced(pc, 2 * signed_8(word & 0xFF)), link: false }
        }
    } else if top == 0b11100 {
        Flow::Branch { target: arm::displaced(pc, 2 * signed_11(word & 0x7FF)), link: false }
    } else if is_pair(halfword, next) {
        let second = next->0;
        if second >> 11 == 0b11111 {
            Flow::Branch { target: pair_target(halfword, second, pc), link: true }
        } else {
            Flow::CallOtherMode { target: pair_target(halfword, second, pc) & !3 }
        }
    } else if top == 0b11110 || top == 0b11111 || top == 0b11101 {
        // a lone half of a pair means the decoding lost track
        Flow::Undefined
    } else if top == 0b01001 {
        // ldr rd, [pc, imm]
        Flow::LiteralLoad { literal: arm::displaced(pc & !3, 4 * (word & 0xFF)), size: 4 }
    } else {
        other_flow(halfword)
    }
}

/// the fields of a halfword stay inside their widths.
proof fn lemma_fields(word: u32, second: u16)
    by (bit_vector)
    ensures
        word & 0xFF <= 0xFF,
        word & 0x7FF <= 0x7FF,
        second & 0x7FF <= 0x7FF,
{
}

pub fn sign_extend(value: u32, bits: u32) -> (extended: i32)
    requires
        bits == 8 && value <= 0xFF || bits == 11 && value <= 0x7FF,
    ensures
        bits == 8 ==> extended == signed_8(value),
        bits == 11 ==> extended == signed_11(value),
{
    let limit: i32 = if bits == 8 {
        0x100
    } else {
        0x800
    };
    if (value as i32) < limit / 2 {
        value as i32
    } else {
        value as i32 - limit
    }
}

/// decodes the instruction at address, returning it and its size in bytes.
/// next is the following halfword, which only the bl and blx pairs read.
pub fn decode(halfword: u16, next: Option<u16>, address: u32) -> (decoded: (Instruction, u32))
    ensures
        decoded.0.condition == condition_of(halfword),
        decoded.0.flow == flow_of(halfword, next, address),
        decoded.1 == size_of(halfword, next),
{
    let pc = address.wrapping_add(4);
    let word = halfword as u32;
    proof {
        lemma_fields(word, 0);
    }

    match halfword >> 11 {
        // conditional branch, with svc and undefined in the last two conditions
        0b11010 | 0b11011 => {
            let condition = (word >> 8) & 0xF;
            let flow = match condition {
                0xF => Flow::Svc,
                0xE => Flow::Undefined,
                _ => Flow::Branch { target: arm::displace(pc, sign_extend(word & 0xFF, 8) * 2), link: false },
            };
            (Instruction { condition, flow }, 2)
        },
        0b11100 => {
            let target = arm::displace(pc, sign_extend(word & 0x7FF, 11) * 2);
            (always(Flow::Branch { target, link: false }), 2)
        },
        // the first half of bl or blx carries the upper offset
        0b11110 => {
            let high = sign_extend(word & 0x7FF, 11) * 0x1000;
            let second = match next {
                Some(second) => second,
                None => {
                    return (always(Flow::Undefined), 2);
                },
            };
            proof {
                lemma_fields(word, second);
            }
            let low = (second & 0x7FF) as i32 * 2;
            let target = arm::displace(pc, high + low);
            match second >> 11 {
                0b11111 => (always(Flow::Branch { target, link: true }), 4),
                0b11101 => (always(Flow::CallOtherMode { target: target & !3 }), 4),
                _ => (always(Flow::Undefined), 2),
            }
        },
        // a lone second half means the decoding lost track
        0b11111 | 0b11101 => (always(Flow::Undefined), 2),
        // ldr rd, [pc, imm]
        0b01001 => {
            let literal = arm::displace(pc & !3, (word & 0xFF) as i32 * 4);
            (always(Flow::LiteralLoad { literal, size: 4 }), 2)
        },
        _ => (always(other(halfword)), 2),
    }
}

fn always(flow: Flow) -> (instruction: Instruction)
    ensures
        instruction == (Instruction { condition: ALWAYS, flow }),
{
    Instruction { condition: ALWAYS, flow }
}

fn other(halfword: u16) -> (flow: Flow)
    ensures
        flow == other_flow(halfword),
{
    // pop with pc
    if halfword & 0xFF00 == 0xBD00 {
        return Flow::Return;
    }
    // bx and blx through a register
    if halfword & 0xFF07 == 0x4700 {
        let register = (halfword >> 3) & 0xF;
        let link = halfword & 0x80 != 0;
        return if register == LR && !link {
            Flow::Return
        } else {
            Flow::BranchRegister { register: register as u32, link }
        };
    }
    // mov and add on high registers with pc as the destination, where cmp
    // only reads it
    if halfword & 0xFD87 == 0x4487 {
        let source = (halfword >> 3) & 0xF;
        let mov = halfword & 0x0300 == 0x0200;
        return if mov && source == LR {
            Flow::Return
        } else {
            Flow::IndirectJump
        };
    }
    Flow::Other
}

} // verus!
