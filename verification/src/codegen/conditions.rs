//! when conditional code runs.

use crate::codegen;
use crate::codegen::small_c::{Field, Machine};
use vstd::prelude::*;

verus! {

/// the tests of the interface.
pub enum Test {
    Eq,
    Ne,
    Cs,
    Cc,
    Mi,
    Pl,
    Vs,
    Vc,
    Hi,
    Ls,
    Ge,
    Lt,
    Gt,
    Le,
}

impl Test {
    pub open spec fn text(self) -> Seq<char> {
        match self {
            Test::Eq => "C_EQ"@,
            Test::Ne => "C_NE"@,
            Test::Cs => "C_CS"@,
            Test::Cc => "C_CC"@,
            Test::Mi => "C_MI"@,
            Test::Pl => "C_PL"@,
            Test::Vs => "C_VS"@,
            Test::Vc => "C_VC"@,
            Test::Hi => "C_HI"@,
            Test::Ls => "C_LS"@,
            Test::Ge => "C_GE"@,
            Test::Lt => "C_LT"@,
            Test::Gt => "C_GT"@,
            Test::Le => "C_LE"@,
        }
    }

    /// what the test says of the flags.
    pub open spec fn says(self, machine: Machine) -> bool {
        let n = machine.field(Field::N) == 1;
        let z = machine.field(Field::Z) == 1;
        let c = machine.field(Field::C) == 1;
        let v = machine.field(Field::V) == 1;
        match self {
            Test::Eq => z,
            Test::Ne => !z,
            Test::Cs => c,
            Test::Cc => !c,
            Test::Mi => n,
            Test::Pl => !n,
            Test::Vs => v,
            Test::Vc => !v,
            Test::Hi => c && !z,
            Test::Ls => !c || z,
            Test::Ge => n == v,
            Test::Lt => n != v,
            Test::Gt => !z && n == v,
            Test::Le => z || n != v,
        }
    }
}

/// a condition that can fail, as the architecture has it: the upper bits pick
/// the test and the lowest turns it around.
pub open spec fn passes(condition: u32, machine: Machine) -> bool {
    let n = machine.field(Field::N) == 1;
    let z = machine.field(Field::Z) == 1;
    let c = machine.field(Field::C) == 1;
    let v = machine.field(Field::V) == 1;
    let base = match condition / 2 {
        0 => z,
        1 => c,
        2 => n,
        3 => v,
        4 => c && !z,
        5 => n == v,
        _ => n == v && !z,
    };
    if condition % 2 == 0 {
        base
    } else {
        !base
    }
}

/// what stands in the C for a condition is the test that holds exactly when the
/// condition does.
pub proof fn law_conditions(condition: u32, machine: Machine)
    requires
        condition < 14,
    ensures
        exists|test: Test| #[trigger]
            test.text() == codegen::condition_text(condition) && test.says(machine) == passes(
                condition,
                machine,
            ),
{
    reveal(codegen::condition_text);
    let test = match condition {
        0 => Test::Eq,
        1 => Test::Ne,
        2 => Test::Cs,
        3 => Test::Cc,
        4 => Test::Mi,
        5 => Test::Pl,
        6 => Test::Vs,
        7 => Test::Vc,
        8 => Test::Hi,
        9 => Test::Ls,
        10 => Test::Ge,
        11 => Test::Lt,
        12 => Test::Gt,
        _ => Test::Le,
    };
    assert(test.text() == codegen::condition_text(condition));
    assert(test.says(machine) == passes(condition, machine));
}

} // verus!
