//! where every kind of ARM instruction leads, by the fields that its encoding
//! has.

use crate::arm;
use crate::arm::Flow;
use vstd::prelude::*;

verus! {

/// the condition, where fifteen is the unconditional space.
pub open spec fn condition(word: u32) -> u32 {
    word / 0x1000_0000
}

/// what says which kind of instruction it is.
pub open spec fn kind(word: u32) -> u32 {
    word / 0x200_0000 % 8
}

/// the bit of word at position.
pub open spec fn flag(word: u32, position: u32) -> bool {
    (word >> position) % 2 == 1
}

/// the register in the bits from position on.
pub open spec fn register(word: u32, position: u32) -> int {
    ((word >> position) % 16) as int
}

/// the low 24 bits as a number that may be negative.
pub open spec fn distance(word: u32) -> int {
    let low = (word % 0x100_0000) as int;
    if low >= 0x80_0000 {
        low - 0x100_0000
    } else {
        low
    }
}

/// flow goes somewhere else without coming back, to a place that is not in the
/// instruction.
pub open spec fn goes_away(flow: Flow) -> bool {
    match flow {
        Flow::Return | Flow::IndirectJump | Flow::JumpTable => true,
        Flow::AddressTable { .. } | Flow::LoadPcLiteral { .. } => true,
        Flow::BranchRegister { link, .. } => !link,
        _ => false,
    }
}

/// flow goes on with the next instruction.
pub open spec fn goes_on(flow: Flow) -> bool {
    flow is Other || flow is LiteralLoad
}

proof fn lemma_encoding(word: u32)
    by (bit_vector)
    ensures
        word >> 28 == word / 0x1000_0000,
        (word & 0x0E00_0000 == 0x0A00_0000) == (word / 0x200_0000 % 8 == 5),
        word & 0x00FF_FFFF == word % 0x100_0000,
        (word >> 24) & 1 == (word >> 24) % 2,
        (word & (1u32 << 24) != 0) == ((word >> 24) % 2 == 1),
        (word & (1u32 << 25) != 0) == ((word >> 25) % 2 == 1),
        (word & (1u32 << 23) != 0) == ((word >> 23) % 2 == 1),
        (word & (1u32 << 22) != 0) == ((word >> 22) % 2 == 1),
        (word & (1u32 << 20) != 0) == ((word >> 20) % 2 == 1),
        (word & (1u32 << 15) != 0) == ((word >> 15) % 2 == 1),
        (word & (1u32 << 8) != 0) == ((word >> 8) % 2 == 1),
        (word & (1u32 << 5) != 0) == ((word >> 5) % 2 == 1),
        (word >> 16) & 0xF == (word >> 16) % 16,
        (word >> 12) & 0xF == (word >> 12) % 16,
        word & 0xF == word % 16,
        word & 0xFF == word % 0x100,
        word & 0xFFF == word % 0x1000,
        (word & 0x0F00_0000 == 0x0F00_0000) == (word / 0x200_0000 % 8 == 7 && (word >> 24) % 2
            == 1),
        (word & 0x0E00_0010 == 0x0600_0010) == (word / 0x200_0000 % 8 == 3 && (word >> 4) % 2
            == 1),
        (word & 0x0C00_0000 == 0x0400_0000) == (word / 0x200_0000 % 8 == 2 || word / 0x200_0000 % 8
            == 3),
        (word & 0x0E00_0000 == 0x0800_0000) == (word / 0x200_0000 % 8 == 4),
        (word & 0x0C00_0000 == 0) == (word / 0x200_0000 % 8 == 0 || word / 0x200_0000 % 8 == 1),
        word & 0x0F30_0E00 == 0x0D10_0A00 ==> word / 0x200_0000 % 8 == 6,
        word & 0x0F30_0E00 == 0x0D10_0A00 ==> (word >> 24) % 2 == 1 && (word >> 20) % 2 == 1,
        word & 0x0FFF_FFD0 == 0x012F_FF10 ==> word / 0x200_0000 % 8 == 0 && word & 0x90 != 0x90,
        word & 0x0FFF_FFF0 == 0x079F_F100 ==> word / 0x200_0000 % 8 == 3 && (word >> 4) % 2 == 0
            && (word >> 20) % 2 == 1 && (word >> 12) % 16 == 15 && (word >> 25) % 2 == 1 && (word
            >> 16) % 16 == 15 && (word >> 24) % 2 == 1,
        (word >> 25) % 2 == word / 0x200_0000 % 8 % 2,
        word >> 28 <= 15,
{
}

/// b and bl go as many words past the instruction after the next as their low
/// bits say, and bl comes back.
pub proof fn law_branches(word: u32, address: u32)
    requires
        condition(word) < 15,
        kind(word) == 5,
    ensures
        arm::flow_of(word, address) matches Flow::Branch { target, link } && target == (address + 8
            + 4 * distance(word)) % 0x1_0000_0000 && link == flag(word, 24),
{
    lemma_encoding(word);
}

/// blx to an address goes to Thumb code, which may be half a word further.
pub proof fn law_branches_to_thumb(word: u32, address: u32)
    requires
        condition(word) == 15,
    ensures
        kind(word) != 5 ==> arm::flow_of(word, address) is Other,
        kind(word) == 5 ==> (arm::flow_of(word, address) matches Flow::BranchToThumb { target }
            && target == (address + 8 + 4 * distance(word) + (if flag(word, 24) {
            2int
        } else {
            0int
        })) % 0x1_0000_0000),
{
    lemma_encoding(word);
}

proof fn lemma_exchange(word: u32)
    by (bit_vector)
    ensures
        word & 0x0FFF_FFF0 == 0x012F_FF10 ==> word & 0x0FFF_FFD0 == 0x012F_FF10 && word & (1u32
            << 5) == 0 && word & 0x0E00_0000 != 0x0A00_0000,
        word & 0x0FFF_FFF0 == 0x012F_FF30 ==> word & 0x0FFF_FFD0 == 0x012F_FF10 && word & (1u32
            << 5) != 0 && word & 0x0E00_0000 != 0x0A00_0000,
        word & 0xF == word % 16,
        word & 0x0FFF_FFD0 == 0x012F_FF10 ==> word & 0x0FFF_FFF0 == 0x012F_FF10 || word
            & 0x0FFF_FFF0 == 0x012F_FF30,
{
}

/// bx leaves, as a return when it is through lr, and blx through a register
/// comes back. nothing else is a branch through a register.
pub proof fn law_branches_through_registers(word: u32, address: u32)
    requires
        condition(word) < 15,
    ensures
        word & 0x0FFF_FFF0 == 0x012F_FF10 ==> goes_away(arm::flow_of(word, address)) && (if word
            % 16 == 14 {
            arm::flow_of(word, address) is Return
        } else {
            arm::flow_of(word, address) == (Flow::BranchRegister {
                register: word % 16,
                link: false,
            })
        }),
        word & 0x0FFF_FFF0 == 0x012F_FF30 ==> arm::flow_of(word, address) == (
        Flow::BranchRegister { register: word % 16, link: true }),
        arm::flow_of(word, address) is BranchRegister ==> word & 0x0FFF_FFF0 == 0x012F_FF10
            || word & 0x0FFF_FFF0 == 0x012F_FF30,
{
    lemma_exchange(word);
    lemma_encoding(word);
}

/// svc is found by its encoding and nothing else is one.
pub proof fn law_supervisor_calls(word: u32, address: u32)
    ensures
        arm::flow_of(word, address) is Svc <==> condition(word) < 15 && kind(word) == 7 && flag(
            word,
            24,
        ),
{
    lemma_encoding(word);
    lemma_exchange(word);
}

/// where the twelve low bits go from the instruction after the next, forwards
/// or backwards.
pub open spec fn twelve_bits_from(word: u32, address: u32) -> int {
    (address + 8 + (if flag(word, 23) {
        (word % 0x1000) as int
    } else {
        -((word % 0x1000) as int)
    })) % 0x1_0000_0000
}

/// a load of a word or byte into pc leaves, and into any other register goes
/// on. one from pc and an immediate, without anything written back, names its
/// literal. a store goes on.
pub proof fn law_single_transfers(word: u32, address: u32)
    requires
        condition(word) < 15,
        kind(word) == 2 || (kind(word) == 3 && !flag(word, 4)),
    ensures
        ({
            let flow = arm::flow_of(word, address);
            let literal = register(word, 16) == 15 && kind(word) == 2 && flag(word, 24);
            &&& !flag(word, 20) ==> flow is Other
            &&& flag(word, 20) && register(word, 12) == 15 ==> goes_away(flow)
            &&& flag(word, 20) && register(word, 12) != 15 ==> goes_on(flow)
            &&& flag(word, 20) && register(word, 12) != 15 ==> (flow is LiteralLoad <==> literal)
            &&& (flow matches Flow::LiteralLoad { literal: place, size } ==> place
                == twelve_bits_from(word, address) && size == (if flag(word, 22) {
                1int
            } else {
                4int
            }))
            &&& (flow matches Flow::LoadPcLiteral { literal: place } ==> place
                == twelve_bits_from(word, address) && register(word, 12) == 15)
            &&& flag(word, 20) && register(word, 12) == 15 && literal ==> flow is LoadPcLiteral
            &&& flow is Return ==> register(word, 16) == 13
        }),
{
    lemma_encoding(word);
    lemma_exchange(word);
}

/// ldr pc, [pc, rm lsl 2] is a table of addresses and nothing else is.
pub proof fn law_address_tables(word: u32, address: u32)
    requires
        condition(word) < 15,
    ensures
        arm::flow_of(word, address) matches Flow::AddressTable { index } ==> index == word % 16,
        arm::flow_of(word, address) is AddressTable <==> word & 0x0FFF_FFF0 == 0x079F_F100,
{
    lemma_encoding(word);
    lemma_exchange(word);
}

/// a block transfer leaves when it loads pc, as a return when it pops, and goes
/// on otherwise.
pub proof fn law_block_transfers(word: u32, address: u32)
    requires
        condition(word) < 15,
        kind(word) == 4,
    ensures
        ({
            let flow = arm::flow_of(word, address);
            if flag(word, 20) && flag(word, 15) {
                if register(word, 16) == 13 {
                    flow is Return
                } else {
                    flow is IndirectJump
                }
            } else {
                flow is Other
            }
        }),
{
    lemma_encoding(word);
    lemma_exchange(word);
}

/// media instructions and coprocessor transfers go on, and a vldr from pc names
/// its literal, that of a double twice as big.
pub proof fn law_extension_instructions(word: u32, address: u32)
    requires
        condition(word) < 15,
        (kind(word) == 3 && flag(word, 4)) || kind(word) == 6 || (kind(word) == 7 && !flag(
            word,
            24,
        )),
    ensures
        ({
            let flow = arm::flow_of(word, address);
            let vldr = word & 0x0F30_0E00 == 0x0D10_0A00 && register(word, 16) == 15;
            let pc = (address + 8) % 0x1_0000_0000;
            let far = 4 * (word % 0x100);
            &&& goes_on(flow)
            &&& flow is LiteralLoad <==> vldr
            &&& (flow matches Flow::LiteralLoad { literal, size } ==> literal == (pc - pc % 4
                + if flag(word, 23) {
                far
            } else {
                -far
            }) % 0x1_0000_0000 && size == if flag(word, 8) {
                8int
            } else {
                4int
            })
        }),
{
    lemma_encoding(word);
    lemma_exchange(word);
    let pc = address.wrapping_add(8);
    crate::thumb::laws::lemma_word_start(pc);
}

/// a data processing instruction that writes pc leaves, and any other goes on.
/// the four that only compare write nothing, and neither do the multiplies and
/// the extra loads and stores in the same space, which have the fifth and the
/// eighth bit set.
pub proof fn law_data_processing(word: u32, address: u32)
    requires
        condition(word) < 15,
        kind(word) == 0 || kind(word) == 1,
        word & 0x0FFF_FFD0 != 0x012F_FF10,
    ensures
        ({
            let flow = arm::flow_of(word, address);
            let other = kind(word) == 0 && flag(word, 4) && flag(word, 7);
            let compares = flag(word, 24) && !flag(word, 23);
            let writes_pc = !other && !compares && register(word, 12) == 15;
            &&& writes_pc ==> goes_away(flow)
            &&& !writes_pc ==> flow is Other
            // mov pc, lr
            &&& flow is Return <==> writes_pc && word & 0x0FE0_0FFF == 0x01A0_000E
            // add pc, pc, rm lsl 2
            &&& flow is JumpTable <==> writes_pc && word & 0x0FFF_0FF0 == 0x008F_0100
        }),
{
    lemma_encoding(word);
    lemma_data_fields(word);
}

proof fn lemma_data_fields(word: u32)
    by (bit_vector)
    ensures
        (word & 0x90 == 0x90) == ((word >> 4) % 2 == 1 && (word >> 7) % 2 == 1),
        (8 <= (word >> 21) & 0xF <= 11) == ((word >> 24) % 2 == 1 && (word >> 23) % 2 == 0),
        (word & 0x0C00_0000 == 0 && word & (1u32 << 25) == 0 && (word >> 21) & 0xF == 0xD && word
            & 0xF == 14 && (word >> 4) & 0xFF == 0) == (word & 0x0FE0_0FFF == 0x01A0_000E),
        (word & 0x0C00_0000 == 0 && word & (1u32 << 25) == 0 && (word >> 21) & 0xF == 0x4 && (word
            >> 16) & 0xF == 15 && (word >> 4) & 0xFF == 0x10 && word & (1u32 << 20) == 0) == (word
            & 0x0FFF_0FF0 == 0x008F_0100),
{
}

/// a bit of a number rotated right comes from as many bits further up, and
/// around from the bottom. the immediate of a compare is eight bits rotated by
/// twice the four above them.
pub proof fn law_compares(word: u32, position: u32)
    requires
        position < 32,
    ensures
        arm::compare_of(word) is Some <==> condition(word) < 15 && word & 0x0FF0_0000
            == 0x0350_0000,
        arm::compare_of(word) matches Some((register, value)) ==> {
            let amount = 2 * ((word >> 8) % 16);
            let from = ((position + amount) % 32) as u32;
            &&& register == (word >> 16) % 16
            &&& (value >> position) % 2 == (if from < 8 {
                (word >> from) % 2
            } else {
                0
            })
        },
{
    lemma_encoding(word);
    lemma_rotation(word, position);
}

proof fn lemma_rotation(word: u32, position: u32)
    by (bit_vector)
    requires
        position < 32,
    ensures
        ({
            let amount: u32 = (((word >> 8) & 0xF) * 2) as u32;
            let eight: u32 = word & 0xFF;
            let value: u32 = if amount == 0 {
                eight
            } else {
                (eight >> amount) | (eight << ((32 - amount) as u32))
            };
            let from: u32 = ((position + amount) % 32) as u32;
            (value >> position) % 2 == (if from < 8 {
                (word >> from) % 2
            } else {
                0u32
            })
        }),
        ((word >> 8) & 0xF) == (word >> 8) % 16,
{
}

} // verus!
