use recomp3ds::arm;
use recomp3ds::arm::Flow;
use recomp3ds::thumb;

const BASE: u32 = 0x0010_0000;

fn flow(word: u32) -> Flow {
    arm::decode(word, BASE).flow
}

fn thumb_flow(halfword: u16) -> Flow {
    thumb::decode(halfword, None, BASE).0.flow
}

#[test]
fn branches_and_calls() {
    assert_eq!(flow(0xEA00_0000), Flow::Branch { target: BASE + 8, link: false });
    assert_eq!(flow(0xEB00_0001), Flow::Branch { target: BASE + 12, link: true });
    assert_eq!(flow(0xEAFF_FFFE), Flow::Branch { target: BASE, link: false });
    assert_eq!(flow(0xFB00_0000), Flow::BranchToThumb { target: BASE + 10 });
}

#[test]
fn arm_returns() {
    assert_eq!(flow(0xE12F_FF1E), Flow::Return); // bx lr
    assert_eq!(flow(0xE8BD_8010), Flow::Return); // pop r4, pc
    assert_eq!(flow(0xE1A0_F00E), Flow::Return); // mov pc, lr
    assert_eq!(flow(0xE49D_F004), Flow::Return); // ldr pc, [sp], 4
}

#[test]
fn indirect_flow() {
    assert_eq!(flow(0xE12F_FF33), Flow::BranchRegister { register: 3, link: true }); // blx r3
    assert_eq!(flow(0x908F_F100), Flow::JumpTable); // addls pc, pc, r0 lsl 2
    assert_eq!(flow(0xE593_F000), Flow::IndirectJump); // ldr pc, [r3]
}

#[test]
fn literals() {
    assert_eq!(flow(0xE59F_0004), Flow::LiteralLoad { literal: BASE + 12, size: 4 });
    assert_eq!(flow(0xE59F_F000), Flow::LoadPcLiteral { literal: BASE + 8 });
    assert_eq!(flow(0xED9F_0A01), Flow::LiteralLoad { literal: BASE + 12, size: 4 }); // vldr s0
}

#[test]
fn ordinary_instructions_do_not_change_flow() {
    assert_eq!(flow(0xE350_0005), Flow::Other); // cmp r0, 5
    assert_eq!(flow(0xE081_0002), Flow::Other); // add r0, r1, r2
    assert_eq!(flow(0xE000_0291), Flow::Other); // mul r0, r1, r2
    assert_eq!(flow(0xEF00_0032), Flow::Svc);
}

#[test]
fn branches() {
    assert_eq!(thumb_flow(0xE7FE), Flow::Branch { target: BASE, link: false }); // b .
    assert_eq!(thumb_flow(0xD001), Flow::Branch { target: BASE + 6, link: false }); // beq
    assert_eq!(thumb::decode(0xD001, None, BASE).0.condition, 0);
    assert_eq!(thumb_flow(0xDF01), Flow::Svc);
}

#[test]
fn calls_take_two_halfwords() {
    // bl to BASE + 0x1000
    let (instruction, size) = thumb::decode(0xF000, Some(0xFFFE), BASE);
    assert_eq!(instruction.flow, Flow::Branch { target: BASE + 0x1000, link: true });
    assert_eq!(size, 4);
    // blx to ARM code, aligned down
    let (instruction, _) = thumb::decode(0xF000, Some(0xE802), BASE);
    assert_eq!(instruction.flow, Flow::CallOtherMode { target: BASE + 8 });
}

#[test]
fn returns_and_indirect_jumps() {
    assert_eq!(thumb_flow(0x4770), Flow::Return); // bx lr
    assert_eq!(thumb_flow(0xBD10), Flow::Return); // pop r4, pc
    assert_eq!(thumb_flow(0x46F7), Flow::Return); // mov pc, lr
    assert_eq!(thumb_flow(0x4798), Flow::BranchRegister { register: 3, link: true }); // blx r3
    assert_eq!(thumb_flow(0x4487), Flow::IndirectJump); // add pc, r0
}

#[test]
fn literals_are_word_aligned() {
    // ldr r0, [pc, 4] at BASE + 2 reads BASE + 8
    let (instruction, _) = thumb::decode(0x4801, None, BASE + 2);
    assert_eq!(instruction.flow, Flow::LiteralLoad { literal: BASE + 8, size: 4 });
}

#[test]
fn only_always_is_unconditional() {
    assert!(!arm::decode(0xEA00_0000, BASE).is_conditional());
    assert!(arm::decode(0x0A00_0000, BASE).is_conditional());
    assert!(arm::decode(0xFA00_0000, BASE).is_conditional());
}

#[test]
fn address_tables_and_other_literals() {
    // ldrls pc, [pc, r3 lsl 2]
    assert_eq!(flow(0x979F_F103), Flow::AddressTable { index: 3 });
    // ldrb r0, [pc, -4]
    assert_eq!(flow(0xE55F_0004), Flow::LiteralLoad { literal: BASE + 4, size: 1 });
    // vldr d0, [pc, 8]
    assert_eq!(flow(0xED9F_0B02), Flow::LiteralLoad { literal: BASE + 16, size: 8 });
}

#[test]
fn addresses_wrap_around() {
    assert_eq!(arm::decode(0xEA00_0000, 0xFFFF_FFFC).flow, Flow::Branch { target: 4, link: false });
    assert_eq!(arm::decode(0xEAFF_FFFD, 0).flow, Flow::Branch { target: 0xFFFF_FFFC, link: false });
}

#[test]
fn a_compare_gives_its_register_and_value() {
    assert_eq!(arm::compare_immediate(0xE350_0001), Some((0, 1)));
    assert_eq!(arm::compare_immediate(0xE355_0F41), Some((5, 0x104))); // cmp r5, 0x41 ror 30
    assert_eq!(arm::compare_immediate(0xE353_04FF), Some((3, 0xFF00_0000)));
    assert_eq!(arm::compare_immediate(0xF350_0001), None);
    assert_eq!(arm::compare_immediate(0xE150_0001), None); // cmp r0, r1
}

#[test]
fn a_lone_half_of_a_call_is_not_code() {
    assert_eq!(thumb::decode(0xF000, None, BASE).0.flow, Flow::Undefined);
    assert_eq!(thumb::decode(0xF000, Some(0x4770), BASE).0.flow, Flow::Undefined);
    assert_eq!(thumb_flow(0xF800), Flow::Undefined);
    assert_eq!(thumb_flow(0xDE00), Flow::Undefined);
}

#[test]
fn media_instructions_do_not_change_flow() {
    assert_eq!(flow(0xE750_F211), Flow::Other); // smmul r0, r1, r2
    assert_eq!(flow(0xE6FF_0071), Flow::Other); // uxth r0, r1
    assert_eq!(flow(0xE71F_F112), Flow::Other); // read as a load it would go to pc
    assert_eq!(flow(0xE791_F102), Flow::IndirectJump); // ldr pc, [r1, r2 lsl 2]
}

#[test]
fn comparing_pc_does_not_change_flow() {
    assert_eq!(thumb_flow(0x4587), Flow::Other); // cmp pc, r0
    assert_eq!(thumb_flow(0x45F7), Flow::Other); // cmp pc, lr
    assert_eq!(thumb_flow(0x4687), Flow::IndirectJump); // mov pc, r0
}
