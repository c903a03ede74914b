//! where every kind of Thumb instruction leads, by the fields that its encoding
//! has.

use crate::arm::laws::goes_away;
use crate::arm::{Flow, ALWAYS};
use crate::thumb;
use vstd::prelude::*;

verus! {

/// what says which kind of instruction it is.
pub open spec fn kind(halfword: u16) -> u16 {
    halfword / 0x800
}

/// value as a number that may be negative, with half of limit values below
/// zero.
pub open spec fn signed(value: int, limit: int) -> int {
    if 2 * value >= limit {
        value - limit
    } else {
        value
    }
}

proof fn lemma_encoding(halfword: u16, second: u16)
    by (bit_vector)
    ensures
        halfword >> 11 == halfword / 0x800,
        second >> 11 == second / 0x800,
        (halfword as u32 >> 8) & 0xF == halfword / 0x100 % 16,
        halfword as u32 & 0xFF == halfword % 0x100,
        halfword as u32 & 0x7FF == halfword % 0x800,
        (second & 0x7FF) as u32 == second % 0x800,
        (halfword & 0xFF00 == 0xBD00) == (halfword / 0x100 == 0xBD),
        (halfword >> 3) & 0xF == halfword / 8 % 16,
        (halfword & 0x80 != 0) == (halfword / 0x80 % 2 == 1),
        halfword & 0xFF07 == 0x4700 ==> halfword / 0x100 == 0x47 && halfword % 8 == 0,
        halfword / 0x100 == 0x47 && halfword % 8 == 0 ==> halfword & 0xFF07 == 0x4700,
        (halfword & 0xFD87 == 0x4487) == ((halfword / 0x100 == 0x44 || halfword / 0x100 == 0x46)
            && halfword / 0x80 % 2 == 1 && halfword % 8 == 7),
        (halfword & 0x0300 == 0x0200) == (halfword / 0x100 % 4 == 2),
        halfword / 0x100 / 8 == halfword / 0x800,
        (halfword / 0x1000 == 0xD) == (halfword >> 11 == 0b11010 || halfword >> 11 == 0b11011),
        halfword / 0x800 <= 0x1F,
        halfword / 0x100 / 4 == 0x11 ==> halfword / 0x800 == 8,
{
}

pub proof fn lemma_word_start(address: u32)
    by (bit_vector)
    ensures
        address & !3 == address - address % 4,
{
}

/// a conditional branch goes as many halfwords past the instruction after the
/// next as its low byte says, where the last two conditions are not code and
/// svc.
pub proof fn law_conditional_branches(halfword: u16, next: Option<u16>, address: u32)
    requires
        halfword / 0x1000 == 0xD,
    ensures
        ({
            let flow = thumb::flow_of(halfword, next, address);
            let condition = halfword / 0x100 % 16;
            &&& thumb::condition_of(halfword) == condition
            &&& condition == 15 ==> flow is Svc
            &&& condition == 14 ==> flow is Undefined
            &&& condition < 14 ==> (flow matches Flow::Branch { target, link } && !link && target
                == (address + 4 + 2 * signed((halfword % 0x100) as int, 0x100)) % 0x1_0000_0000)
        }),
{
    lemma_encoding(halfword, 0);
}

/// any other instruction runs whatever the flags.
pub proof fn law_other_conditions(halfword: u16)
    requires
        halfword / 0x1000 != 0xD,
    ensures
        thumb::condition_of(halfword) == ALWAYS,
{
    lemma_encoding(halfword, 0);
}

/// a branch goes as many halfwords past the instruction after the next as its
/// low eleven bits say.
pub proof fn law_branches(halfword: u16, next: Option<u16>, address: u32)
    requires
        kind(halfword) == 0x1C,
    ensures
        thumb::flow_of(halfword, next, address) matches Flow::Branch { target, link } && !link
            && target == (address + 4 + 2 * signed((halfword % 0x800) as int, 0x800))
            % 0x1_0000_0000,
{
    lemma_encoding(halfword, 0);
}

/// a call takes two halfwords, the first with the high part of how many
/// halfwords past them it goes and the second with the low part. blx goes to
/// ARM code, which is on a word. a half on its own is not code.
pub proof fn law_calls(halfword: u16, next: Option<u16>, address: u32)
    requires
        kind(halfword) >= 0x1D,
    ensures
        ({
            let flow = thumb::flow_of(halfword, next, address);
            let second = next->0;
            let pair = kind(halfword) == 0x1E && next is Some && (kind(second) == 0x1F || kind(
                second,
            ) == 0x1D);
            let place = (address + 4 + 0x1000 * signed((halfword % 0x800) as int, 0x800) + 2 * (
            second % 0x800)) % 0x1_0000_0000;
            &&& thumb::size_of(halfword, next) == if pair {
                4int
            } else {
                2int
            }
            &&& !pair ==> flow is Undefined
            &&& pair && kind(second) == 0x1F ==> (flow matches Flow::Branch { target, link }
                && link && target == place)
            &&& pair && kind(second) == 0x1D ==> (flow matches Flow::CallOtherMode { target }
                && target == place - place % 4)
        }),
{
    let second = if next is Some {
        next->0
    } else {
        0
    };
    lemma_encoding(halfword, second);
    let target = thumb::pair_target(halfword, second, address.wrapping_add(4));
    lemma_word_start(target);
}

/// any other instruction takes one halfword.
pub proof fn law_sizes(halfword: u16, next: Option<u16>)
    requires
        kind(halfword) < 0x1D,
    ensures
        thumb::size_of(halfword, next) == 2,
{
    lemma_encoding(halfword, 0);
}

/// the rest. pop with pc, bx and add and mov with pc as the destination leave,
/// blx through a register comes back, a load from pc names its literal on a
/// word, and anything else goes on.
pub proof fn law_other_instructions(halfword: u16, next: Option<u16>, address: u32)
    requires
        kind(halfword) < 0x1C,
        halfword / 0x1000 != 0xD,
    ensures
        ({
            let flow = thumb::flow_of(halfword, next, address);
            let high = halfword / 0x100;
            let exchange = high == 0x47 && halfword % 8 == 0;
            let link = halfword / 0x80 % 2 == 1;
            let source = halfword / 8 % 16;
            let writes_pc = (high == 0x44 || high == 0x46) && link && halfword % 8 == 7;
            let pc = (address + 4) % 0x1_0000_0000;
            &&& flow is LiteralLoad <==> kind(halfword) == 9
            &&& (flow matches Flow::LiteralLoad { literal, size } ==> size == 4 && literal == (pc
                - pc % 4 + 4 * (halfword % 0x100)) % 0x1_0000_0000)
            &&& goes_away(flow) <==> high == 0xBD || (exchange && !link) || writes_pc
            &&& exchange && link ==> flow == (Flow::BranchRegister {
                register: source as u32,
                link: true,
            })
            &&& exchange && !link && source != 14 ==> flow == (Flow::BranchRegister {
                register: source as u32,
                link: false,
            })
            &&& flow is Return <==> high == 0xBD || (exchange && !link && source == 14) || (
            writes_pc && high == 0x46 && source == 14)
            &&& !goes_away(flow) && !(exchange && link) && kind(halfword) != 9 ==> flow is Other
        }),
{
    lemma_encoding(halfword, 0);
    let pc = address.wrapping_add(4);
    lemma_word_start(pc);
}

} // verus!
