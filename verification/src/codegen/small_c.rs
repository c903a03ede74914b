//! a small part of C and what it does to the registers, the flags and the
//! memory, as far as the lowering of an instruction needs it.

use crate::text;
use vstd::prelude::*;

verus! {

/// the integer types.
pub enum Type {
    U8,
    U16,
    U32,
    U64,
    I8,
    I16,
    I32,
    I64,
}

/// number as many bits hold it, without a sign.
pub open spec fn low(number: int, limit: int) -> int {
    number % limit
}

/// number as many bits hold it, half of the values below zero.
pub open spec fn low_signed(number: int, limit: int) -> int {
    let rest = number % limit;
    if 2 * rest >= limit {
        rest - limit
    } else {
        rest
    }
}

impl Type {
    pub open spec fn text(self) -> Seq<char> {
        match self {
            Type::U8 => "uint8_t"@,
            Type::U16 => "uint16_t"@,
            Type::U32 => "uint32_t"@,
            Type::U64 => "uint64_t"@,
            Type::I8 => "int8_t"@,
            Type::I16 => "int16_t"@,
            Type::I32 => "int32_t"@,
            Type::I64 => "int64_t"@,
        }
    }

    /// number as a value of the type has it.
    pub open spec fn holds(self, number: int) -> int {
        match self {
            Type::U8 => low(number, 0x100),
            Type::U16 => low(number, 0x1_0000),
            Type::U32 => low(number, 0x1_0000_0000),
            Type::U64 => low(number, 0x1_0000_0000_0000_0000),
            Type::I8 => low_signed(number, 0x100),
            Type::I16 => low_signed(number, 0x1_0000),
            Type::I32 => low_signed(number, 0x1_0000_0000),
            Type::I64 => low_signed(number, 0x1_0000_0000_0000_0000),
        }
    }

    /// the type that values smaller than an int have in an expression.
    pub open spec fn promoted(self) -> Type {
        match self {
            Type::U8 | Type::U16 | Type::I8 | Type::I16 => Type::I32,
            _ => self,
        }
    }

    /// the type of an operation on two types.
    pub open spec fn with(self, other: Type) -> Type {
        let (a, b) = (self.promoted(), other.promoted());
        if a is U64 || b is U64 {
            Type::U64
        } else if a is I64 || b is I64 {
            Type::I64
        } else if a is U32 || b is U32 {
            Type::U32
        } else {
            Type::I32
        }
    }
}

pub struct Value {
    pub of: Type,
    pub number: int,
}

/// number as a value of a type.
pub open spec fn value(of: Type, number: int) -> Value {
    Value { of, number: of.holds(number) }
}

/// what a comparison gives.
pub open spec fn truth(answer: bool) -> Value {
    Value {
        of: Type::I32,
        number: if answer {
            1
        } else {
            0
        },
    }
}

pub enum Operator {
    Times,
    Plus,
    Minus,
    Left,
    Right,
    Less,
    AtLeast,
    Equal,
    And,
    Xor,
    Or,
}

impl Operator {
    pub open spec fn text(self) -> Seq<char> {
        match self {
            Operator::Times => " * "@,
            Operator::Plus => " + "@,
            Operator::Minus => " - "@,
            Operator::Left => " << "@,
            Operator::Right => " >> "@,
            Operator::Less => " < "@,
            Operator::AtLeast => " >= "@,
            Operator::Equal => " == "@,
            Operator::And => " & "@,
            Operator::Xor => " ^ "@,
            Operator::Or => " | "@,
        }
    }

    /// how tight the operator binds.
    pub open spec fn strength(self) -> int {
        match self {
            Operator::Times => 13,
            Operator::Plus | Operator::Minus => 12,
            Operator::Left | Operator::Right => 11,
            Operator::Less | Operator::AtLeast => 10,
            Operator::Equal => 9,
            Operator::And => 8,
            Operator::Xor => 7,
            Operator::Or => 6,
        }
    }

    #[verifier::opaque]
    pub open spec fn apply(self, x: Value, y: Value) -> Value {
        let of = x.of.with(y.of);
        let (a, b) = (of.holds(x.number), of.holds(y.number));
        match self {
            Operator::Times => value(of, a * b),
            Operator::Plus => value(of, a + b),
            Operator::Minus => value(of, a - b),
            Operator::Left => shifted_left(x, y.number),
            Operator::Right => shifted_right(x, y.number),
            Operator::Less => truth(a < b),
            Operator::AtLeast => truth(a >= b),
            Operator::Equal => truth(a == b),
            Operator::And => match of {
                Type::U64 => value(of, (a as u64 & b as u64) as int),
                Type::U32 => value(of, (a as u32 & b as u32) as int),
                Type::I64 => value(of, (a as i64 & b as i64) as int),
                _ => value(of, (a as i32 & b as i32) as int),
            },
            Operator::Xor => match of {
                Type::U64 => value(of, (a as u64 ^ b as u64) as int),
                Type::U32 => value(of, (a as u32 ^ b as u32) as int),
                Type::I64 => value(of, (a as i64 ^ b as i64) as int),
                _ => value(of, (a as i32 ^ b as i32) as int),
            },
            Operator::Or => match of {
                Type::U64 => value(of, (a as u64 | b as u64) as int),
                Type::U32 => value(of, (a as u32 | b as u32) as int),
                Type::I64 => value(of, (a as i64 | b as i64) as int),
                _ => value(of, (a as i32 | b as i32) as int),
            },
        }
    }
}

/// x shifted left, in its own type.
#[verifier::opaque]
pub open spec fn shifted_left(x: Value, amount: int) -> Value {
    let of = x.of.promoted();
    match of {
        Type::U64 => value(of, ((x.number as u64) << (amount as u64)) as int),
        Type::U32 => value(of, ((x.number as u32) << (amount as u32)) as int),
        Type::I64 => value(of, ((x.number as i64) << (amount as u64)) as int),
        _ => value(of, ((x.number as i32) << (amount as u32)) as int),
    }
}

/// x shifted right, in its own type, what comes in a copy of its sign.
#[verifier::opaque]
pub open spec fn shifted_right(x: Value, amount: int) -> Value {
    let of = x.of.promoted();
    match of {
        Type::U64 => value(of, ((x.number as u64) >> (amount as u64)) as int),
        Type::U32 => value(of, ((x.number as u32) >> (amount as u32)) as int),
        Type::I64 => value(of, ((x.number as i64) >> (amount as u64)) as int),
        _ => value(of, ((x.number as i32) >> (amount as u32)) as int),
    }
}

/// the variables of a line or a block.
pub enum Name {
    A,
    B,
    M,
    R,
    V,
    P,
    Sc,
    Ci,
    Oa,
    Hi,
    Lo,
    Fin,
    Old,
    Base,
    Start,
    Source,
    Address,
    Target,
}

impl Name {
    pub open spec fn text(self) -> Seq<char> {
        match self {
            Name::A => "a"@,
            Name::B => "b"@,
            Name::M => "m"@,
            Name::R => "r"@,
            Name::V => "v"@,
            Name::P => "p"@,
            Name::Sc => "sc"@,
            Name::Ci => "ci"@,
            Name::Oa => "oa"@,
            Name::Hi => "hi"@,
            Name::Lo => "lo"@,
            Name::Fin => "fin"@,
            Name::Old => "old"@,
            Name::Base => "base"@,
            Name::Start => "start"@,
            Name::Source => "source"@,
            Name::Address => "address"@,
            Name::Target => "target"@,
        }
    }
}

/// the parts of the context that hold one number.
pub enum Field {
    N,
    Z,
    C,
    V,
    Thumb,
    Exclusive,
    ExclusiveAddress,
    Tls,
}

impl Field {
    pub open spec fn text(self) -> Seq<char> {
        match self {
            Field::N => "ctx->n"@,
            Field::Z => "ctx->z"@,
            Field::C => "ctx->c"@,
            Field::V => "ctx->v"@,
            Field::Thumb => "ctx->thumb"@,
            Field::Exclusive => "ctx->exclusive"@,
            Field::ExclusiveAddress => "ctx->exclusive_address"@,
            Field::Tls => "ctx->tls"@,
        }
    }

    pub open spec fn of(self) -> Type {
        match self {
            Field::ExclusiveAddress | Field::Tls => Type::U32,
            _ => Type::U8,
        }
    }
}

/// how the code leaves.
pub enum Exit {
    /// it does not.
    On,
    /// to wherever target is, in the same state.
    Dispatch { target: int },
    /// to r15.
    Back,
    /// to an address that may be Thumb code, as a jump or as a return.
    To { address: int, returns: bool },
    /// to the label of an address.
    Label { label: u32 },
    /// to the kernel, which comes back to an address.
    Kernel { back: int, number: int },
}

/// a function of C that runs code.
pub enum Routine {
    /// the one that looks r15 up.
    Any,
    /// one that was written.
    Written { module: Option<u32>, address: u32, thumb: bool },
}

impl Routine {
    pub open spec fn text(self) -> Seq<char> {
        match self {
            Routine::Any => "recomp_call"@,
            Routine::Written { module, address, thumb } => {
                let kind = if thumb {
                    "t_"@
                } else {
                    "f_"@
                };
                let plain = kind + text::hex_wide(address as nat, 8);
                match module {
                    None => plain,
                    Some(number) => "m"@ + text::padded(text::dec(number as nat), 3) + "_"@
                        + plain,
                }
            },
        }
    }
}

/// what happens outside of the C of an instruction.
pub enum Event {
    /// a function runs from these registers and this state.
    Runs { routine: Routine, r: Seq<u32>, state: int },
    /// the code goes on only if it comes back to an address.
    Comes { back: int, thumb: bool },
    /// the interpreter runs one instruction.
    Interprets { address: int, code: int },
}

#[verifier::ext_equal]
pub struct Machine {
    pub r: Seq<u32>,
    pub fields: Map<Field, int>,
    pub vfp: Seq<u32>,
    pub fpscr: u32,
    pub memory: spec_fn(u32) -> u8,
    /// where the module is loaded.
    pub module: u32,
    pub locals: Map<Name, Value>,
    pub exit: Exit,
    pub events: Seq<Event>,
}

/// the address some bytes past another.
pub open spec fn past(address: u32, bytes: int) -> u32 {
    ((address + bytes) % 0x1_0000_0000) as u32
}

impl Machine {
    pub open spec fn field(self, field: Field) -> int {
        self.fields[field]
    }

    pub open spec fn byte(self, address: u32) -> int {
        (self.memory)(address) as int
    }

    /// the 8, 16 or 32 bits at address, the lowest byte first.
    pub open spec fn load(self, bits: nat, address: u32) -> int {
        if bits == 8 {
            self.byte(address)
        } else if bits == 16 {
            self.byte(address) + 0x100 * self.byte(past(address, 1))
        } else {
            self.byte(address) + 0x100 * self.byte(past(address, 1)) + 0x1_0000 * self.byte(
                past(address, 2),
            ) + 0x100_0000 * self.byte(past(address, 3))
        }
    }

    pub open spec fn with_register(self, number: int, value: u32) -> Machine {
        Machine { r: self.r.update(number, value), ..self }
    }

    pub open spec fn with_field(self, field: Field, number: int) -> Machine {
        Machine { fields: self.fields.insert(field, number), ..self }
    }

    pub open spec fn with_local(self, name: Name, value: Value) -> Machine {
        Machine { locals: self.locals.insert(name, value), ..self }
    }

    /// the low bits of number stored at address, the lowest byte first.
    pub open spec fn stored(self, bits: nat, address: u32, number: int) -> Machine {
        Machine {
            memory: |place: u32|
                {
                    let far = (place - address) % 0x1_0000_0000;
                    if 8 * far < bits {
                        (number / (if far == 0 {
                            1int
                        } else if far == 1 {
                            0x100
                        } else if far == 2 {
                            0x1_0000
                        } else {
                            0x100_0000
                        }) % 0x100) as u8
                    } else {
                        (self.memory)(place)
                    }
                },
            ..self
        }
    }

    /// the low bits of a register stored at address.
    pub open spec fn given(self, bits: nat, address: u32, value: u32) -> Machine {
        self.stored(
            bits,
            address,
            if bits == 8 {
                value as int % 0x100
            } else if bits == 16 {
                value as int % 0x1_0000
            } else {
                value as int
            },
        )
    }

    /// the machine once the variables are gone.
    pub open spec fn bare(self) -> Machine {
        Machine { locals: Map::empty(), ..self }
    }

    pub open spec fn leaving(self, exit: Exit) -> Machine {
        Machine { exit, ..self }
    }

    /// the machine once something has happened outside.
    pub open spec fn seeing(self, event: Event) -> Machine {
        Machine { events: self.events.push(event), ..self }
    }

    /// the machine once a function has been started.
    pub open spec fn starting(self, routine: Routine) -> Machine {
        self.seeing(Event::Runs { routine, r: self.r, state: self.field(Field::Thumb) })
    }
}

/// the functions of the interface that only compute.
pub enum Function {
    Ror,
    ReverseBytes,
    ReverseBits,
    LeadingZeros,
}

impl Function {
    pub open spec fn text(self) -> Seq<char> {
        match self {
            Function::Ror => "ror32("@,
            Function::ReverseBytes => "__builtin_bswap32("@,
            Function::ReverseBits => "reverse_bits("@,
            Function::LeadingZeros => "__builtin_clz("@,
        }
    }
}

pub enum Expression {
    Local(Name),
    Field(Field),
    /// a general register.
    Register(nat),
    /// a VFP register.
    Vfp(nat),
    Fpscr,
    Module,
    /// a number in decimal.
    Int(nat),
    /// a number in decimal, without a sign.
    Unsigned(nat),
    /// a number in hexadecimal, with so many digits at least.
    Hex { number: nat, width: nat, unsigned: bool },
    Not(Box<Expression>),
    Flip(Box<Expression>),
    Cast(Type, Box<Expression>),
    Group(Box<Expression>),
    Two(Operator, Box<Expression>, Box<Expression>),
    Load(nat, Box<Expression>),
    Call(Function, Box<Expression>),
    Call2(Function, Box<Expression>, Box<Expression>),
    Either(Box<Expression>, Box<Expression>, Box<Expression>),
}

/// the type of what is loaded.
pub open spec fn loaded_type(bits: nat) -> Type {
    if bits == 8 {
        Type::U8
    } else if bits == 16 {
        Type::U16
    } else {
        Type::U32
    }
}

/// value rotated right.
pub open spec fn rotated(value: u32, amount: u32) -> u32 {
    (value >> (amount % 32)) | (value << ((32 - amount % 32) as u32 % 32))
}

impl Expression {
    #[verifier::opaque]
    pub open spec fn text(self) -> Seq<char>
        decreases self,
    {
        match self {
            Expression::Local(name) => name.text(),
            Expression::Field(field) => field.text(),
            Expression::Register(number) => "ctx->r["@ + text::dec(number) + "]"@,
            Expression::Vfp(number) => "ctx->vfp["@ + text::dec(number) + "]"@,
            Expression::Fpscr => "*ctx->fpscr"@,
            Expression::Module => "module"@,
            Expression::Int(number) => text::dec(number),
            Expression::Unsigned(number) => text::dec(number) + "u"@,
            Expression::Hex { number, width, unsigned } => "0x"@ + text::hex_wide(number, width)
                + if unsigned {
                "u"@
            } else {
                ""@
            },
            Expression::Not(x) => "!"@ + x.text(),
            Expression::Flip(x) => "~"@ + x.text(),
            Expression::Cast(of, x) => "("@ + of.text() + ")"@ + x.text(),
            Expression::Group(x) => "("@ + x.text() + ")"@,
            Expression::Two(operator, x, y) => x.text() + operator.text() + y.text(),
            Expression::Load(bits, x) => "mem_read"@ + text::dec(bits) + "(ctx, "@ + x.text()
                + ")"@,
            Expression::Call(function, x) => function.text() + x.text() + ")"@,
            Expression::Call2(function, x, y) => function.text() + x.text() + ", "@ + y.text()
                + ")"@,
            Expression::Either(x, y, z) => x.text() + " ? "@ + y.text() + " : "@ + z.text(),
        }
    }

    /// how tight the expression holds together.
    pub open spec fn strength(self) -> int {
        match self {
            Expression::Two(operator, _, _) => operator.strength(),
            Expression::Not(_) | Expression::Flip(_) | Expression::Cast(_, _)
            | Expression::Fpscr => 15,
            Expression::Either(_, _, _) => 3,
            _ => 16,
        }
    }

    /// the text reads as this expression, with brackets where C would take it
    /// apart another way.
    #[verifier::opaque]
    pub open spec fn grouped(self) -> bool
        decreases self,
    {
        match self {
            Expression::Not(x) | Expression::Flip(x) | Expression::Cast(_, x) => x.strength() >= 15
                && x.grouped(),
            Expression::Group(x) | Expression::Load(_, x) | Expression::Call(_, x) => x.grouped(),
            Expression::Call2(_, x, y) => x.grouped() && y.grouped(),
            Expression::Two(operator, x, y) => x.strength() >= operator.strength() && y.strength()
                > operator.strength() && x.grouped() && y.grouped(),
            Expression::Either(x, y, z) => x.strength() > 3 && y.strength() > 3 && z.strength() > 3
                && x.grouped() && y.grouped() && z.grouped(),
            _ => true,
        }
    }

    #[verifier::opaque]
    pub open spec fn eval(self, machine: Machine) -> Value
        decreases self,
    {
        match self {
            Expression::Local(name) => machine.locals[name],
            Expression::Field(field) => Value { of: field.of(), number: machine.field(field) },
            Expression::Register(number) => Value {
                of: Type::U32,
                number: machine.r[number as int] as int,
            },
            Expression::Vfp(number) => Value {
                of: Type::U32,
                number: machine.vfp[number as int] as int,
            },
            Expression::Fpscr => Value { of: Type::U32, number: machine.fpscr as int },
            Expression::Module => Value { of: Type::U32, number: machine.module as int },
            Expression::Int(number) => Value { of: Type::I32, number: number as int },
            Expression::Unsigned(number) => Value { of: Type::U32, number: number as int },
            Expression::Hex { number, unsigned, .. } => Value {
                of: if unsigned {
                    Type::U32
                } else {
                    Type::I32
                },
                number: number as int,
            },
            Expression::Not(x) => truth(x.eval(machine).number == 0),
            Expression::Flip(x) => {
                let of = x.eval(machine).of.promoted();
                value(of, -1 - x.eval(machine).number)
            },
            Expression::Cast(of, x) => value(of, x.eval(machine).number),
            Expression::Group(x) => x.eval(machine),
            Expression::Two(operator, x, y) => operator.apply(x.eval(machine), y.eval(machine)),
            Expression::Load(bits, x) => Value {
                of: loaded_type(bits),
                number: machine.load(
                    bits,
                    Type::U32.holds(x.eval(machine).number) as u32,
                ),
            },
            Expression::Call(function, x) => {
                let number = Type::U32.holds(x.eval(machine).number) as u32;
                match function {
                    Function::ReverseBytes => Value {
                        of: Type::U32,
                        number: reversed_bytes(number) as int,
                    },
                    Function::LeadingZeros => Value {
                        of: Type::I32,
                        number: leading_zeros(number as nat) as int,
                    },
                    _ => Value { of: Type::U32, number: reversed_bits(number) as int },
                }
            },
            Expression::Call2(_, x, y) => Value {
                of: Type::U32,
                number: rotated(
                    Type::U32.holds(x.eval(machine).number) as u32,
                    Type::U32.holds(y.eval(machine).number) as u32,
                ) as int,
            },
            Expression::Either(x, y, z) => if x.eval(machine).number != 0 {
                y.eval(machine)
            } else {
                z.eval(machine)
            },
        }
    }
}

/// the bytes of value in the other order.
pub open spec fn reversed_bytes(value: u32) -> u32 {
    ((value % 0x100) * 0x100_0000 + (value / 0x100 % 0x100) * 0x1_0000 + (value / 0x1_0000
        % 0x100) * 0x100 + value / 0x100_0000) as u32
}

/// how many of 32 bits are zero above the highest that is set.
pub open spec fn leading_zeros(value: nat) -> nat
    decreases 0x1_0000_0000 - value,
{
    if value >= 0x8000_0000 {
        0
    } else if value == 0 {
        32
    } else {
        1 + leading_zeros(2 * value)
    }
}

/// the lowest count bits of value in the other order, above those of rest.
pub open spec fn bits_reversed(value: nat, count: nat, rest: nat) -> nat
    decreases count,
{
    if count == 0 {
        rest
    } else {
        bits_reversed(value / 2, (count - 1) as nat, 2 * rest + value % 2)
    }
}

/// the bits of value in the other order.
pub open spec fn reversed_bits(value: u32) -> u32 {
    bits_reversed(value as nat, 32, 0) as u32
}

/// the shifts by a register.
pub enum Shift {
    Lsl,
    Lsr,
    Asr,
    Ror,
}

/// value shifted by an amount of up to 255 and the last bit that went out,
/// which is carry when none did.
pub open spec fn shift(kind: Shift, value: u32, amount: int, carry: int) -> (u32, int) {
    if amount == 0 {
        (value, carry)
    } else {
        match kind {
            Shift::Lsl => if amount < 32 {
                (value << (amount as u32), ((value >> ((32 - amount) as u32)) % 2) as int)
            } else if amount == 32 {
                (0, (value % 2) as int)
            } else {
                (0, 0)
            },
            Shift::Lsr => if amount < 32 {
                (value >> (amount as u32), ((value >> ((amount - 1) as u32)) % 2) as int)
            } else if amount == 32 {
                (0, (value / 0x8000_0000) as int)
            } else {
                (0, 0)
            },
            Shift::Asr => if amount < 32 {
                (
                    ((value as i32) >> (amount as u32)) as u32,
                    ((value >> ((amount - 1) as u32)) % 2) as int,
                )
            } else {
                (
                    if value >= 0x8000_0000 {
                        0xFFFF_FFFF
                    } else {
                        0
                    },
                    (value / 0x8000_0000) as int,
                )
            },
            Shift::Ror => {
                let turned = rotated(value, (amount % 32) as u32);
                (turned, (turned / 0x8000_0000) as int)
            },
        }
    }
}

impl Shift {
    pub open spec fn text(self) -> Seq<char> {
        match self {
            Shift::Lsl => "shift_lsl("@,
            Shift::Lsr => "shift_lsr("@,
            Shift::Asr => "shift_asr("@,
            Shift::Ror => "shift_ror("@,
        }
    }
}

/// what a declaration declares.
pub enum Declared {
    Bare(Name),
    One(Name, Expression),
    More(Name, Expression, Box<Declared>),
}

impl Declared {
    #[verifier::opaque]
    pub open spec fn text(self) -> Seq<char>
        decreases self,
    {
        match self {
            Declared::Bare(name) => name.text(),
            Declared::One(name, x) => name.text() + " = "@ + x.text(),
            Declared::More(name, x, rest) => name.text() + " = "@ + x.text() + ", "@ + rest.text(),
        }
    }

    #[verifier::opaque]
    pub open spec fn grouped(self) -> bool
        decreases self,
    {
        match self {
            Declared::Bare(name) => true,
            Declared::One(name, x) => x.grouped(),
            Declared::More(name, x, rest) => x.grouped() && rest.grouped(),
        }
    }

    #[verifier::opaque]
    pub open spec fn run(self, of: Type, machine: Machine) -> Machine
        decreases self,
    {
        match self {
            Declared::Bare(name) => machine,
            Declared::One(name, x) => machine.with_local(name, value(of, x.eval(machine).number)),
            Declared::More(name, x, rest) => rest.run(
                of,
                machine.with_local(name, value(of, x.eval(machine).number)),
            ),
        }
    }
}

pub enum Place {
    Local(Name),
    Field(Field),
    Register(nat),
    Vfp(nat),
    Fpscr,
}

impl Place {
    pub open spec fn text(self) -> Seq<char> {
        match self {
            Place::Local(name) => name.text(),
            Place::Field(field) => field.text(),
            Place::Register(number) => "ctx->r["@ + text::dec(number) + "]"@,
            Place::Vfp(number) => "ctx->vfp["@ + text::dec(number) + "]"@,
            Place::Fpscr => "*ctx->fpscr"@,
        }
    }

    pub open spec fn set(self, number: int, machine: Machine) -> Machine {
        match self {
            // the variables that are set again all have 32 bits
            Place::Local(name) => machine.with_local(name, value(Type::U32, number)),
            Place::Field(field) => machine.with_field(field, field.of().holds(number)),
            Place::Register(register) => machine.with_register(
                register as int,
                Type::U32.holds(number) as u32,
            ),
            Place::Vfp(register) => Machine {
                vfp: machine.vfp.update(register as int, Type::U32.holds(number) as u32),
                ..machine
            },
            Place::Fpscr => Machine { fpscr: Type::U32.holds(number) as u32, ..machine },
        }
    }
}

pub enum Statement {
    Open,
    Close,
    Declare(Type, Declared),
    Assign(Place, Expression),
    /// adds to a variable or a register.
    Add(Place, Expression),
    Store(nat, Expression, Expression),
    /// shifts x by y, the carry going in and out of sc.
    DeclareShift(Name, Shift, Expression, Expression),
    SetShift(Name, Shift, Expression, Expression),
    Ignore(Name),
    Dispatch,
    Back,
    ReturnTo(Expression),
    JumpTo(Expression),
    Goto(u32),
    /// runs a function.
    Enter(Routine),
    /// goes on only where code has come back to an address, as Thumb or ARM code.
    Expect(bool, Expression),
    Svc(Expression, Expression),
    Interpret(Expression, Expression),
}

/// the machine after a shift of x by the low byte of y into name.
pub open spec fn shift_run(
    name: Name,
    kind: Shift,
    x: Expression,
    y: Expression,
    machine: Machine,
) -> Machine {
    let (result, carry) = shift(
        kind,
        Type::U32.holds(x.eval(machine).number) as u32,
        y.eval(machine).number % 0x100,
        machine.locals[Name::Sc].number,
    );
    machine.with_local(Name::Sc, value(Type::U8, carry)).with_local(
        name,
        value(Type::U32, result as int),
    )
}

impl Statement {
    #[verifier::opaque]
    pub open spec fn text(self) -> Seq<char> {
        match self {
            Statement::Open => "{"@,
            Statement::Close => "}"@,
            Statement::Declare(of, declared) => of.text() + " "@ + declared.text() + ";"@,
            Statement::Assign(place, x) => place.text() + " = "@ + x.text() + ";"@,
            Statement::Add(place, x) => place.text() + " += "@ + x.text() + ";"@,
            Statement::Store(bits, x, y) => "mem_write"@ + text::dec(bits) + "(ctx, "@ + x.text()
                + ", "@ + y.text() + ");"@,
            Statement::DeclareShift(name, kind, x, y) => "uint32_t "@ + name.text() + " = "@
                + kind.text() + x.text() + ", "@ + y.text() + ", &sc);"@,
            Statement::SetShift(name, kind, x, y) => name.text() + " = "@ + kind.text() + x.text()
                + ", "@ + y.text() + ", &sc);"@,
            Statement::Ignore(name) => "(void)"@ + name.text() + ";"@,
            Statement::Dispatch => "goto dispatch;"@,
            Statement::Back => "return;"@,
            Statement::ReturnTo(x) => "RETURN_TO("@ + x.text() + ");"@,
            Statement::JumpTo(x) => "JUMP_TO("@ + x.text() + ");"@,
            Statement::Goto(address) => "goto L_"@ + text::hex_wide(address as nat, 8) + ";"@,
            Statement::Enter(routine) => "CALL("@ + routine.text() + ");"@,
            Statement::Expect(thumb, x) => if thumb {
                "RETURNED_T("@ + x.text() + ");"@
            } else {
                "RETURNED("@ + x.text() + ");"@
            },
            Statement::Svc(x, y) => "SVC("@ + x.text() + ", "@ + y.text() + ");"@,
            Statement::Interpret(x, y) => "INTERPRET("@ + x.text() + ", "@ + y.text() + ");"@,
        }
    }

    #[verifier::opaque]
    pub open spec fn grouped(self) -> bool {
        match self {
            Statement::Declare(_, declared) => declared.grouped(),
            Statement::Assign(_, x) | Statement::Add(_, x) => x.grouped(),
            Statement::Store(_, x, y) => x.grouped() && y.grouped(),
            Statement::DeclareShift(_, _, x, y) | Statement::SetShift(_, _, x, y) => x.grouped()
                && y.grouped(),
            Statement::ReturnTo(x) | Statement::JumpTo(x) => x.grouped(),
            Statement::Expect(_, x) => x.grouped(),
            Statement::Svc(x, y) | Statement::Interpret(x, y) => x.grouped() && y.grouped(),
            _ => true,
        }
    }

    #[verifier::opaque]
    pub open spec fn run(self, machine: Machine) -> Machine {
        match self {
            Statement::Open | Statement::Close | Statement::Ignore(_) => machine,
            Statement::Declare(of, declared) => declared.run(of, machine),
            Statement::Assign(place, x) => place.set(x.eval(machine).number, machine),
            Statement::Add(place, x) => {
                let before = match place {
                    Place::Local(name) => machine.locals[name].number,
                    Place::Register(number) => machine.r[number as int] as int,
                    _ => 0,
                };
                place.set(before + x.eval(machine).number, machine)
            },
            Statement::Store(bits, x, y) => machine.stored(
                bits,
                Type::U32.holds(x.eval(machine).number) as u32,
                y.eval(machine).number,
            ),
            Statement::DeclareShift(name, kind, x, y) | Statement::SetShift(name, kind, x, y)
                => shift_run(name, kind, x, y, machine),
            Statement::Dispatch => machine.leaving(
                Exit::Dispatch { target: machine.locals[Name::Target].number },
            ),
            Statement::Back => machine.leaving(Exit::Back),
            Statement::ReturnTo(x) => machine.leaving(
                Exit::To { address: x.eval(machine).number, returns: true },
            ),
            Statement::JumpTo(x) => machine.leaving(
                Exit::To { address: x.eval(machine).number, returns: false },
            ),
            Statement::Goto(address) => machine.leaving(Exit::Label { label: address }),
            Statement::Enter(routine) => machine.starting(routine),
            Statement::Expect(thumb, x) => machine.seeing(
                Event::Comes { back: x.eval(machine).number, thumb },
            ),
            Statement::Svc(x, y) => machine.leaving(
                Exit::Kernel { back: x.eval(machine).number, number: y.eval(machine).number },
            ),
            Statement::Interpret(x, y) => machine.seeing(
                Event::Interprets {
                    address: x.eval(machine).number,
                    code: y.eval(machine).number,
                },
            ),
        }
    }
}

/// where a statement stands on its line.
pub enum Layout {
    /// on a line of its own.
    Alone,
    /// at the start of a line.
    First,
    /// between others.
    Middle,
    /// at the end of a line.
    Last,
}

impl Layout {
    /// a statement with what stands around it.
    pub open spec fn around(self, statement: Seq<char>) -> Seq<char> {
        match self {
            Layout::Alone => "    "@ + statement + "\n"@,
            Layout::First => "    "@ + statement + " "@,
            Layout::Middle => statement + " "@,
            Layout::Last => statement + "\n"@,
        }
    }
}

/// statements, one after the other.
pub enum Program {
    End,
    Then(Layout, Statement, Box<Program>),
}

impl Program {
    #[verifier::opaque]
    pub open spec fn text(self) -> Seq<char>
        decreases self,
    {
        match self {
            Program::End => Seq::empty(),
            Program::Then(layout, statement, rest) => layout.around(statement.text()) + rest.text(),
        }
    }

    #[verifier::opaque]
    pub open spec fn grouped(self) -> bool
        decreases self,
    {
        match self {
            Program::End => true,
            Program::Then(_, statement, rest) => statement.grouped() && rest.grouped(),
        }
    }

    #[verifier::opaque]
    pub open spec fn run(self, machine: Machine) -> Machine
        decreases self,
    {
        match self {
            Program::End => machine,
            Program::Then(_, statement, rest) => rest.run(statement.run(machine)),
        }
    }

    pub open spec fn followed_by(self, other: Program) -> Program
        decreases self,
    {
        match self {
            Program::End => other,
            Program::Then(layout, statement, rest) => Program::Then(
                layout,
                statement,
                Box::new(rest.followed_by(other)),
            ),
        }
    }
}

/// programs run one after the other.
pub proof fn lemma_followed_by(first: Program, second: Program, machine: Machine)
    ensures
        first.followed_by(second).text() == first.text() + second.text(),
        first.grouped() && second.grouped() ==> first.followed_by(second).grouped(),
        first.followed_by(second).run(machine) == second.run(first.run(machine)),
    decreases first,
{
    reveal_with_fuel(Program::text, 2);
    reveal_with_fuel(Program::grouped, 2);
    reveal_with_fuel(Program::run, 2);
    match first {
        Program::End => {
            assert(first.text() + second.text() =~= second.text());
        },
        Program::Then(layout, statement, rest) => {
            lemma_followed_by(*rest, second, statement.run(machine));
            assert(first.followed_by(second).text() =~= first.text() + second.text());
        },
    }
}

/// a piece of a template has no hole in it.
pub open spec fn solid(piece: Seq<char>) -> bool {
    forall|i: int|
        0 <= i < piece.len() ==> (#[trigger] piece[i] == '{' ==> i + 1 < piece.len() && piece[i + 1]
            != '}')
}

/// a template without arguments is what it looks like.
pub proof fn lemma_plain(piece: Seq<char>)
    ensures
        text::fill(piece, Seq::<Seq<char>>::empty()) == piece,
    decreases piece.len(),
{
    reveal_with_fuel(text::fill, 2);
    if piece.len() > 0 {
        lemma_plain(piece.skip(1));
        assert(seq![piece[0]] + piece.skip(1) =~= piece);
    } else {
        assert(piece =~= Seq::empty());
    }
}

/// the first hole of a template gives the first argument.
pub proof fn lemma_hole(before: Seq<char>, after: Seq<char>, args: Seq<Seq<char>>)
    requires
        args.len() > 0,
        solid(before),
    ensures
        text::fill(before + "{}"@ + after, args) == before + args[0] + text::fill(
            after,
            args.skip(1),
        ),
    decreases before.len(),
{
    reveal_strlit("{}");
    reveal_with_fuel(text::fill, 2);
    let all = before + "{}"@ + after;
    let rest = text::fill(after, args.skip(1));
    if before.len() == 0 {
        assert(all.skip(2) =~= after);
        assert(before + args[0] =~= args[0]);
    } else {
        let tail = before.skip(1);
        assert forall|i: int| 0 <= i < tail.len() implies (#[trigger] tail[i] == '{' ==> i + 1
            < tail.len() && tail[i + 1] != '}') by {
            assert(before[i + 1] == tail[i]);
            if tail[i] == '{' {
                assert(before[i + 2] != '}');
            }
        }
        lemma_hole(tail, after, args);
        assert(all.skip(1) =~= tail + "{}"@ + after);
        assert(all[0] == before[0]);
        assert(before[0] == '{' ==> all[1] == before[1]);
        assert(before + args[0] + rest =~= seq![before[0]] + (tail + args[0] + rest));
    }
}

/// the numbers that stand in templates, as they are written.
pub proof fn lemma_numbers()
    ensures
        text::dec(0) == "0"@,
        text::dec(1) == "1"@,
        text::dec(2) == "2"@,
        text::dec(3) == "3"@,
        text::dec(4) == "4"@,
        text::dec(8) == "8"@,
        text::dec(14) == "14"@,
        text::dec(15) == "15"@,
        text::dec(16) == "16"@,
        text::dec(24) == "24"@,
        text::dec(31) == "31"@,
        text::dec(32) == "32"@,
        text::dec(63) == "63"@,
        text::hex_wide(0xFF, 0) == "FF"@,
        text::hex_wide(0xFFFF, 0) == "FFFF"@,
        text::hex_wide(0xFFFF0000, 8) == "FFFF0000"@,
        text::hex_wide(0x00FF00FF, 8) == "00FF00FF"@,
        text::hex_wide(0xFF00FF00, 8) == "FF00FF00"@,
        text::hex_wide(0x80000000, 8) == "80000000"@,
        text::hex_wide(0x40, 0) == "40"@,
        text::hex_wide(0x7FFFFFFF, 8) == "7FFFFFFF"@,
{
    reveal_strlit("0");
    reveal_strlit("1");
    reveal_strlit("2");
    reveal_strlit("3");
    reveal_strlit("4");
    reveal_strlit("8");
    reveal_strlit("14");
    reveal_strlit("15");
    reveal_strlit("16");
    reveal_strlit("24");
    reveal_strlit("31");
    reveal_strlit("32");
    reveal_strlit("63");
    reveal_strlit("FF");
    reveal_strlit("FFFF");
    reveal_strlit("FFFF0000");
    reveal_strlit("00FF00FF");
    reveal_strlit("FF00FF00");
    reveal_strlit("80000000");
    reveal_strlit("40");
    reveal_strlit("7FFFFFFF");
    reveal_with_fuel(text::digits, 9);
    assert(text::dec(0) =~= "0"@);
    assert(text::dec(1) =~= "1"@);
    assert(text::dec(2) =~= "2"@);
    assert(text::dec(3) =~= "3"@);
    assert(text::dec(4) =~= "4"@);
    assert(text::dec(8) =~= "8"@);
    assert(text::dec(14) =~= "14"@);
    assert(text::dec(15) =~= "15"@);
    assert(text::dec(16) =~= "16"@);
    assert(text::dec(24) =~= "24"@);
    assert(text::dec(31) =~= "31"@);
    assert(text::dec(32) =~= "32"@);
    assert(text::dec(63) =~= "63"@);
    assert(text::hex_wide(0xFF, 0) =~= "FF"@);
    assert(text::hex_wide(0xFFFF, 0) =~= "FFFF"@);
    assert(text::hex_wide(0xFFFF0000, 8) =~= "FFFF0000"@);
    assert(text::hex_wide(0x00FF00FF, 8) =~= "00FF00FF"@);
    assert(text::hex_wide(0xFF00FF00, 8) =~= "FF00FF00"@);
    assert(text::hex_wide(0x80000000, 8) =~= "80000000"@);
    assert(text::hex_wide(0x40, 0) =~= "40"@);
    assert(text::hex_wide(0x7FFFFFFF, 8) =~= "7FFFFFFF"@);
}

/// the C that code has past out takes the machine from before to after, but for
/// its variables.
pub open spec fn does(out: Seq<char>, text: Seq<char>, before: Machine, after: Machine) -> bool {
    exists|program: Program|
        text == out + #[trigger] program.text() && program.grouped() && program.run(before).bare()
            == after.bare()
}

pub broadcast proof fn lemma_eval_local(name: Name, machine: Machine)
    ensures
        #[trigger] Expression::Local(name).eval(machine) == machine.locals[name],
{
    reveal_with_fuel(Expression::eval, 2);
}

pub broadcast proof fn lemma_eval_field(field: Field, machine: Machine)
    ensures
        #[trigger] Expression::Field(field).eval(machine) == (Value { of: field.of(), number: machine.field(field) }),
{
    reveal_with_fuel(Expression::eval, 2);
}

pub broadcast proof fn lemma_eval_register(number: nat, machine: Machine)
    ensures
        #[trigger] Expression::Register(number).eval(machine) == (Value { of: Type::U32, number: machine.r[number as int] as int }),
{
    reveal_with_fuel(Expression::eval, 2);
}

pub broadcast proof fn lemma_eval_vfp(number: nat, machine: Machine)
    ensures
        #[trigger] Expression::Vfp(number).eval(machine) == (Value { of: Type::U32, number: machine.vfp[number as int] as int }),
{
    reveal_with_fuel(Expression::eval, 2);
}

pub broadcast proof fn lemma_eval_int(number: nat, machine: Machine)
    ensures
        #[trigger] Expression::Int(number).eval(machine) == (Value { of: Type::I32, number: number as int }),
{
    reveal_with_fuel(Expression::eval, 2);
}

pub broadcast proof fn lemma_eval_unsigned(number: nat, machine: Machine)
    ensures
        #[trigger] Expression::Unsigned(number).eval(machine) == (Value { of: Type::U32, number: number as int }),
{
    reveal_with_fuel(Expression::eval, 2);
}

/// the functions of one argument.
pub proof fn lemma_eval_call(x: Expression, machine: Machine)
    ensures
        Expression::Call(Function::ReverseBytes, Box::new(x)).eval(machine) == (Value {
            of: Type::U32,
            number: reversed_bytes(Type::U32.holds(x.eval(machine).number) as u32) as int,
        }),
        Expression::Call(Function::LeadingZeros, Box::new(x)).eval(machine) == (Value {
            of: Type::I32,
            number: leading_zeros(
                (Type::U32.holds(x.eval(machine).number) as u32) as nat,
            ) as int,
        }),
{
    reveal_with_fuel(Expression::eval, 2);
    let call = Expression::Call(Function::ReverseBytes, Box::new(x));
    let number = Type::U32.holds(x.eval(machine).number) as u32;
    assert(call.eval(machine) == (Value { of: Type::U32, number: reversed_bytes(number) as int }));
}

/// a rotation.
pub proof fn lemma_eval_call2(x: Expression, y: Expression, machine: Machine)
    ensures
        Expression::Call2(Function::Ror, Box::new(x), Box::new(y)).eval(machine) == (Value {
            of: Type::U32,
            number: rotated(
                Type::U32.holds(x.eval(machine).number) as u32,
                Type::U32.holds(y.eval(machine).number) as u32,
            ) as int,
        }),
{
    reveal_with_fuel(Expression::eval, 2);
}

pub broadcast proof fn lemma_eval_not(x: Box<Expression>, machine: Machine)
    ensures
        #[trigger] Expression::Not(x).eval(machine) == truth(x.eval(machine).number == 0),
{
    reveal_with_fuel(Expression::eval, 2);
}

pub broadcast proof fn lemma_eval_flip(x: Box<Expression>, machine: Machine)
    ensures
        #[trigger] Expression::Flip(x).eval(machine) == value(x.eval(machine).of.promoted(), -1 - x.eval(machine).number),
{
    reveal_with_fuel(Expression::eval, 2);
}

pub broadcast proof fn lemma_eval_cast(of: Type, x: Box<Expression>, machine: Machine)
    ensures
        #[trigger] Expression::Cast(of, x).eval(machine) == value(of, x.eval(machine).number),
{
    reveal_with_fuel(Expression::eval, 2);
}

pub broadcast proof fn lemma_eval_group(x: Box<Expression>, machine: Machine)
    ensures
        #[trigger] Expression::Group(x).eval(machine) == x.eval(machine),
{
    reveal_with_fuel(Expression::eval, 2);
}

pub broadcast proof fn lemma_eval_two(operator: Operator, x: Box<Expression>, y: Box<Expression>, machine: Machine)
    ensures
        #[trigger] Expression::Two(operator, x, y).eval(machine) == operator.apply(x.eval(machine), y.eval(machine)),
{
    reveal_with_fuel(Expression::eval, 2);
}

pub broadcast proof fn lemma_eval_load(bits: nat, x: Box<Expression>, machine: Machine)
    ensures
        #[trigger] Expression::Load(bits, x).eval(machine) == (Value { of: loaded_type(bits), number: machine.load(bits, Type::U32.holds(x.eval(machine).number) as u32) }),
{
    reveal_with_fuel(Expression::eval, 2);
}

pub broadcast proof fn lemma_eval_hex(number: nat, width: nat, unsigned: bool, machine: Machine)
    ensures
        #[trigger] (Expression::Hex { number, width, unsigned }).eval(machine) == (Value {
            of: if unsigned {
                Type::U32
            } else {
                Type::I32
            },
            number: number as int,
        }),
{
    reveal_with_fuel(Expression::eval, 2);
}

pub broadcast proof fn lemma_run_open(machine: Machine)
    ensures
        #[trigger] Statement::Open.run(machine) == (machine),
{
    reveal(Statement::run);
}

pub broadcast proof fn lemma_run_close(machine: Machine)
    ensures
        #[trigger] Statement::Close.run(machine) == (machine),
{
    reveal(Statement::run);
}

pub broadcast proof fn lemma_run_ignore(name: Name, machine: Machine)
    ensures
        #[trigger] Statement::Ignore(name).run(machine) == (machine),
{
    reveal(Statement::run);
}

pub broadcast proof fn lemma_run_declare(of: Type, declared: Declared, machine: Machine)
    ensures
        #[trigger] Statement::Declare(of, declared).run(machine) == (declared.run(of, machine)),
{
    reveal(Statement::run);
}

pub broadcast proof fn lemma_run_assign(place: Place, x: Expression, machine: Machine)
    ensures
        #[trigger] Statement::Assign(place, x).run(machine) == (place.set(x.eval(machine).number, machine)),
{
    reveal(Statement::run);
}

pub broadcast proof fn lemma_run_add_local(name: Name, x: Expression, machine: Machine)
    ensures
        #[trigger] Statement::Add(Place::Local(name), x).run(machine) == (Place::Local(name).set(machine.locals[name].number + x.eval(machine).number, machine)),
{
    reveal(Statement::run);
}

pub broadcast proof fn lemma_run_add_register(number: nat, x: Expression, machine: Machine)
    ensures
        #[trigger] Statement::Add(Place::Register(number), x).run(machine) == (Place::Register(number).set(machine.r[number as int] + x.eval(machine).number, machine)),
{
    reveal(Statement::run);
}

pub broadcast proof fn lemma_run_store(bits: nat, x: Expression, y: Expression, machine: Machine)
    ensures
        #[trigger] Statement::Store(bits, x, y).run(machine) == (machine.stored(bits, Type::U32.holds(x.eval(machine).number) as u32, y.eval(machine).number)),
{
    reveal(Statement::run);
}

pub broadcast proof fn lemma_run_declare_shift(name: Name, kind: Shift, x: Expression, y: Expression, machine: Machine)
    ensures
        #[trigger] Statement::DeclareShift(name, kind, x, y).run(machine) == (shift_run(name, kind, x, y, machine)),
{
    reveal(Statement::run);
}

pub broadcast proof fn lemma_run_set_shift(name: Name, kind: Shift, x: Expression, y: Expression, machine: Machine)
    ensures
        #[trigger] Statement::SetShift(name, kind, x, y).run(machine) == (shift_run(name, kind, x, y, machine)),
{
    reveal(Statement::run);
}

pub broadcast proof fn lemma_run_dispatch(machine: Machine)
    ensures
        #[trigger] Statement::Dispatch.run(machine) == (machine.leaving(
            Exit::Dispatch { target: machine.locals[Name::Target].number },
        )),
{
    reveal(Statement::run);
}

pub broadcast proof fn lemma_run_back(machine: Machine)
    ensures
        #[trigger] Statement::Back.run(machine) == (machine.leaving(Exit::Back)),
{
    reveal(Statement::run);
}

pub broadcast proof fn lemma_run_return_to(x: Expression, machine: Machine)
    ensures
        #[trigger] Statement::ReturnTo(x).run(machine) == (machine.leaving(Exit::To { address: x.eval(machine).number, returns: true })),
{
    reveal(Statement::run);
}

pub broadcast proof fn lemma_run_jump_to(x: Expression, machine: Machine)
    ensures
        #[trigger] Statement::JumpTo(x).run(machine) == (machine.leaving(Exit::To { address: x.eval(machine).number, returns: false })),
{
    reveal(Statement::run);
}

pub broadcast proof fn lemma_run_goto(address: u32, machine: Machine)
    ensures
        #[trigger] Statement::Goto(address).run(machine) == machine.leaving(
            Exit::Label { label: address },
        ),
{
    reveal(Statement::run);
}

pub broadcast proof fn lemma_run_enter(routine: Routine, machine: Machine)
    ensures
        #[trigger] Statement::Enter(routine).run(machine) == machine.starting(routine),
{
    reveal(Statement::run);
}

pub broadcast proof fn lemma_run_expect(thumb: bool, x: Expression, machine: Machine)
    ensures
        #[trigger] Statement::Expect(thumb, x).run(machine) == machine.seeing(
            Event::Comes { back: x.eval(machine).number, thumb },
        ),
{
    reveal(Statement::run);
}

pub broadcast proof fn lemma_run_svc(x: Expression, y: Expression, machine: Machine)
    ensures
        #[trigger] Statement::Svc(x, y).run(machine) == machine.leaving(
            Exit::Kernel { back: x.eval(machine).number, number: y.eval(machine).number },
        ),
{
    reveal(Statement::run);
}

pub broadcast proof fn lemma_run_interpret(x: Expression, y: Expression, machine: Machine)
    ensures
        #[trigger] Statement::Interpret(x, y).run(machine) == machine.seeing(
            Event::Interprets { address: x.eval(machine).number, code: y.eval(machine).number },
        ),
{
    reveal(Statement::run);
}

pub broadcast proof fn lemma_eval_either(
    x: Box<Expression>,
    y: Box<Expression>,
    z: Box<Expression>,
    machine: Machine,
)
    ensures
        #[trigger] Expression::Either(x, y, z).eval(machine) == if x.eval(machine).number != 0 {
            y.eval(machine)
        } else {
            z.eval(machine)
        },
{
    reveal_with_fuel(Expression::eval, 2);
}

pub broadcast proof fn lemma_declare_bare(name: Name, of: Type, machine: Machine)
    ensures
        #[trigger] Declared::Bare(name).run(of, machine) == machine,
{
    reveal_with_fuel(Declared::run, 2);
}

pub broadcast proof fn lemma_declare_one(name: Name, x: Expression, of: Type, machine: Machine)
    ensures
        #[trigger] Declared::One(name, x).run(of, machine) == machine.with_local(name, value(of, x.eval(machine).number)),
{
    reveal_with_fuel(Declared::run, 2);
}

pub broadcast proof fn lemma_declare_more(name: Name, x: Expression, rest: Box<Declared>, of: Type, machine: Machine)
    ensures
        #[trigger] Declared::More(name, x, rest).run(of, machine) == rest.run(of, machine.with_local(name, value(of, x.eval(machine).number))),
{
    reveal_with_fuel(Declared::run, 2);
}

pub broadcast proof fn lemma_run_end(machine: Machine)
    ensures
        #[trigger] Program::End.run(machine) == machine,
{
    reveal_with_fuel(Program::run, 2);
}

pub broadcast proof fn lemma_run_then(
    layout: Layout,
    statement: Statement,
    rest: Box<Program>,
    machine: Machine,
)
    ensures
        #[trigger] Program::Then(layout, statement, rest).run(machine) == rest.run(
            statement.run(machine),
        ),
{
    reveal_with_fuel(Program::run, 2);
}

/// text is out with C behind it that takes the machine from before to after.
pub open spec fn grown(out: Seq<char>, text: Seq<char>, before: Machine, after: Machine) -> bool {
    exists|program: Program|
        text == out + #[trigger] program.text() && program.grouped() && program.run(before) == after
}

/// nothing is written yet.
pub proof fn lemma_grown_none(out: Seq<char>, before: Machine)
    ensures
        grown(out, out, before, before),
{
    reveal_with_fuel(Program::text, 2);
    reveal_with_fuel(Program::grouped, 2);
    reveal_with_fuel(Program::run, 2);
    assert(out =~= out + Program::End.text());
}

/// more is written.
pub proof fn lemma_grown(
    out: Seq<char>,
    text: Seq<char>,
    before: Machine,
    middle: Machine,
    program: Program,
)
    requires
        grown(out, text, before, middle),
        program.grouped(),
    ensures
        grown(out, text + program.text(), before, program.run(middle)),
{
    let first = choose|first: Program|
        text == out + #[trigger] first.text() && first.grouped() && first.run(before) == middle;
    lemma_followed_by(first, program, before);
    assert(text + program.text() =~= out + first.followed_by(program).text());
}

/// a line more is written.
pub proof fn lemma_line_grown(
    out: Seq<char>,
    text: Seq<char>,
    before: Machine,
    middle: Machine,
    program: Program,
    template: Seq<char>,
    args: Seq<Seq<char>>,
)
    requires
        grown(out, text, before, middle),
        program.grouped(),
        program.text() == text::fill(template, args).push('\n'),
    ensures
        grown(out, text::emitted(text, template, args), before, program.run(middle)),
{
    lemma_grown(out, text, before, middle, program);
    assert(text::emitted(text, template, args) =~= text + program.text());
}

/// one line does what it comes to.
pub proof fn lemma_line_does(
    out: Seq<char>,
    template: Seq<char>,
    args: Seq<Seq<char>>,
    program: Program,
    before: Machine,
    after: Machine,
)
    requires
        program.grouped(),
        program.text() == text::fill(template, args).push('\n'),
        program.run(before).bare() == after.bare(),
    ensures
        does(out, text::emitted(out, template, args), before, after),
{
    assert(text::emitted(out, template, args) =~= out + program.text());
}

/// what was written does what it comes to.
pub proof fn lemma_grown_does(
    out: Seq<char>,
    text: Seq<char>,
    before: Machine,
    end: Machine,
    after: Machine,
)
    requires
        grown(out, text, before, end),
        end.bare() == after.bare(),
    ensures
        does(out, text, before, after),
{
    let program = choose|program: Program|
        text == out + #[trigger] program.text() && program.grouped() && program.run(before) == end;
    assert(text == out + program.text());
}

/// how statements run one after the other.
pub broadcast group group_steps {
    lemma_run_open,
    lemma_run_close,
    lemma_run_ignore,
    lemma_run_end,
    lemma_run_then,
}

/// how C runs, one step at a time.
pub broadcast group group_running {
    lemma_eval_local,
    lemma_eval_field,
    lemma_eval_register,
    lemma_eval_vfp,
    lemma_eval_int,
    lemma_eval_unsigned,
    lemma_eval_not,
    lemma_eval_flip,
    lemma_eval_cast,
    lemma_eval_group,
    lemma_eval_two,
    lemma_eval_load,
    lemma_eval_hex,
    lemma_run_open,
    lemma_run_close,
    lemma_run_ignore,
    lemma_run_declare,
    lemma_run_assign,
    lemma_run_add_local,
    lemma_run_add_register,
    lemma_run_store,
    lemma_run_declare_shift,
    lemma_run_set_shift,
    lemma_run_dispatch,
    lemma_run_back,
    lemma_run_return_to,
    lemma_run_jump_to,
    lemma_run_goto,
    lemma_run_enter,
    lemma_run_expect,
    lemma_run_svc,
    lemma_run_interpret,
    lemma_eval_either,
    lemma_declare_bare,
    lemma_declare_one,
    lemma_declare_more,
    lemma_run_end,
    lemma_run_then,
}

} // verus!
