//! what ARM instructions compute, apart from the C that is written for them.

use crate::codegen::small_c::{rotated, shift, Exit, Field, Machine, Shift};
use vstd::prelude::*;

verus! {

/// the number that a register stands for with a sign.
pub open spec fn signed(value: u32) -> int {
    if value >= 0x8000_0000 {
        value - 0x1_0000_0000
    } else {
        value as int
    }
}

/// the bits of value turned around.
pub open spec fn inverted(value: u32) -> u32 {
    (0xFFFF_FFFF - value) as u32
}

/// a sum, whether it goes past 32 bits, and whether it does so with a sign.
pub struct Sum {
    pub result: u32,
    pub carry: int,
    pub overflow: int,
}

pub open spec fn add_with_carry(x: u32, y: u32, carry: int) -> Sum {
    let whole = x + y + carry;
    let result = (whole % 0x1_0000_0000) as u32;
    Sum {
        result,
        carry: if whole >= 0x1_0000_0000 {
            1
        } else {
            0
        },
        overflow: if signed(x) + signed(y) + carry == signed(result) {
            0
        } else {
            1
        },
    }
}

/// x plus y.
pub open spec fn sum(x: u32, y: u32) -> Sum {
    add_with_carry(x, y, 0)
}

/// x minus y, where the carry is set when nothing is borrowed.
pub open spec fn difference(x: u32, y: u32) -> Sum {
    add_with_carry(x, inverted(y), 1)
}

/// machine with the negative and zero flags of a result.
pub open spec fn with_sign(machine: Machine, result: u32) -> Machine {
    machine.with_field(
        Field::N,
        if result >= 0x8000_0000 {
            1
        } else {
            0
        },
    ).with_field(
        Field::Z,
        if result == 0 {
            1
        } else {
            0
        },
    )
}

/// machine with all the flags of a sum.
pub open spec fn with_flags(machine: Machine, sum: Sum) -> Machine {
    with_sign(machine, sum.result).with_field(Field::C, sum.carry).with_field(
        Field::V,
        sum.overflow,
    )
}

/// the registers are there and the flags are bits.
pub open spec fn sound(machine: Machine) -> bool {
    &&& machine.r.len() == 16
    &&& machine.vfp.len() == 32
    &&& machine.fields.contains_key(Field::C)
    &&& 0 <= machine.field(Field::N) <= 1
    &&& 0 <= machine.field(Field::Z) <= 1
    &&& 0 <= machine.field(Field::C) <= 1
    &&& 0 <= machine.field(Field::V) <= 1
}

/// what a register reads as, where r15 is an address that the pipeline gives,
/// past where the module is loaded for the code of one.
pub open spec fn read(machine: Machine, module: bool, register: u32, pc: u32) -> u32 {
    if register == 15 {
        ((pc + if module {
            machine.module as int
        } else {
            0
        }) % 0x1_0000_0000) as u32
    } else {
        machine.r[register as int]
    }
}

/// what a load of so many bits leaves in a register, with their sign or with
/// zeros above them.
pub open spec fn taken(machine: Machine, bits: nat, signed: bool, address: u32) -> u32 {
    let number = machine.load(bits, address);
    if signed && bits == 8 && number >= 0x80 {
        (number + 0xFFFF_FF00) as u32
    } else if signed && bits == 16 && number >= 0x8000 {
        (number + 0xFFFF_0000) as u32
    } else {
        number as u32
    }
}

/// a load or store of a register.
pub struct Transfer {
    pub load: bool,
    pub bits: nat,
    pub signed: bool,
    pub rd: u32,
    pub rn: u32,
    /// the offset counts before the transfer, and not only after.
    pub pre: bool,
    pub up: bool,
    pub offset: u32,
    /// the offset is in the instruction.
    pub fixed: bool,
    /// the base is left past the offset.
    pub back: bool,
}

impl Transfer {
    /// the base with the offset.
    pub open spec fn moved(self, base: u32) -> u32 {
        ((if self.up {
            base + self.offset
        } else {
            base - self.offset
        }) % 0x1_0000_0000) as u32
    }

    pub open spec fn place(self, base: u32) -> u32 {
        if self.pre {
            self.moved(base)
        } else {
            base
        }
    }

    pub open spec fn backed(self, machine: Machine, base: u32) -> Machine {
        if self.back {
            machine.with_register(self.rn as int, self.moved(base))
        } else {
            machine
        }
    }
}

/// a load or store of one register at address. what is loaded wins over the base.
/// what goes to pc is an address that may be Thumb code, and a pop of it is a
/// return.
pub open spec fn transferred(
    machine: Machine,
    module: bool,
    address: u32,
    ahead: u32,
    t: Transfer,
) -> Machine {
    let base = read(machine, module, t.rn, address.wrapping_add(8));
    if t.load {
        let value = taken(machine, t.bits, t.signed, t.place(base));
        let moved = t.backed(machine, base);
        if t.rd == 15 {
            let pop = t.rn == 13 && !t.pre && t.up && t.fixed && t.offset == 4;
            moved.leaving(Exit::To { address: value as int, returns: pop })
        } else {
            moved.with_register(t.rd as int, value)
        }
    } else {
        let value = read(machine, module, t.rd, address.wrapping_add(ahead));
        t.backed(machine.given(t.bits, t.place(base), value), base)
    }
}

/// the bit of word at position.
pub open spec fn flag(word: u32, position: u32) -> bool {
    (word >> position) % 2 == 1
}

/// the four bits of word from position on.
pub open spec fn four(word: u32, position: u32) -> u32 {
    (word >> position) % 16
}

/// the kinds of shift, by their number.
pub open spec fn shift_kind(number: u32) -> Shift {
    if number == 0 {
        Shift::Lsl
    } else if number == 1 {
        Shift::Lsr
    } else if number == 2 {
        Shift::Asr
    } else {
        Shift::Ror
    }
}

/// a number shifted by an immediate and the carry that comes out. a shift right
/// by nothing is one by 32, and a rotation by nothing goes through the carry.
pub open spec fn shifted(kind: u32, value: u32, amount: u32, carry: int) -> (u32, int) {
    if amount > 0 || kind == 0 {
        shift(shift_kind(kind), value, amount as int, carry)
    } else if kind < 3 {
        shift(shift_kind(kind), value, 32, carry)
    } else {
        ((value / 2 + carry * 0x8000_0000) as u32, (value % 2) as int)
    }
}

/// the second operand of a data processing instruction and the carry of its
/// shift.
pub open spec fn operand(machine: Machine, module: bool, address: u32, op: u32) -> (u32, int) {
    let carry = machine.field(Field::C);
    let kind = (op >> 5) % 4;
    if flag(op, 25) {
        let value = rotated(op % 0x100, (2 * four(op, 8)) as u32);
        (
            value,
            if four(op, 8) == 0 {
                carry
            } else {
                (value / 0x8000_0000) as int
            },
        )
    } else if flag(op, 4) {
        let pc = address.wrapping_add(12);
        shift(
            shift_kind(kind),
            read(machine, module, op % 16, pc),
            (read(machine, module, four(op, 8), pc) % 0x100) as int,
            carry,
        )
    } else {
        shifted(
            kind,
            read(machine, module, op % 16, address.wrapping_add(8)),
            (op >> 7) % 32,
            carry,
        )
    }
}

/// the opcodes that only set flags.
pub open spec fn only_compares(opcode: u32) -> bool {
    opcode == 8 || opcode == 9 || opcode == 10 || opcode == 11
}

/// what an opcode makes of two numbers, given the carry, that of the shift and
/// the overflow from before.
pub open spec fn computed(opcode: u32, a: u32, b: u32, carry: int, out: int, overflow: int) -> Sum {
    let logical = |result: u32| Sum { result, carry: out, overflow };
    // tst is and, teq is eor, cmp is sub and cmn is add
    match opcode {
        0 => logical(a & b),
        1 => logical(a ^ b),
        2 => difference(a, b),
        3 => difference(b, a),
        4 => sum(a, b),
        5 => add_with_carry(a, b, carry),
        6 => add_with_carry(a, inverted(b), carry),
        7 => add_with_carry(b, inverted(a), carry),
        8 => logical(a & b),
        9 => logical(a ^ b),
        10 => difference(a, b),
        11 => sum(a, b),
        12 => logical(a | b),
        13 => logical(b),
        14 => logical(a & inverted(b)),
        _ => logical(inverted(b)),
    }
}

/// the opcode computes a sum or a difference.
pub open spec fn adds(opcode: u32) -> bool {
    2 <= opcode <= 7 || opcode == 10 || opcode == 11
}

/// the machine after a data processing instruction at address.
pub open spec fn processed(machine: Machine, module: bool, address: u32, op: u32) -> Machine {
    let opcode = four(op, 21);
    let rd = four(op, 12);
    let pc = if !flag(op, 25) && flag(op, 4) {
        address.wrapping_add(12)
    } else {
        address.wrapping_add(8)
    };
    let (b, out) = operand(machine, module, address, op);
    let total = computed(
        opcode,
        read(machine, module, four(op, 16), pc),
        b,
        machine.field(Field::C),
        out,
        machine.field(Field::V),
    );
    let flagged = if !flag(op, 20) {
        machine
    } else if adds(opcode) {
        with_flags(machine, total)
    } else {
        with_sign(machine, total.result).with_field(Field::C, total.carry)
    };
    let aligned = (total.result - total.result % 4) as u32;
    if only_compares(opcode) {
        flagged
    } else if rd != 15 {
        flagged.with_register(rd as int, total.result)
    } else if opcode == 13 && !flag(op, 25) && op % 0x1000 == 14 {
        // mov pc, lr
        flagged.with_register(15, aligned).leaving(Exit::Back)
    } else {
        flagged.leaving(Exit::Dispatch { target: aligned as int })
    }
}

} // verus!
