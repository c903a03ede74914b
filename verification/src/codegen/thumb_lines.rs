//! the lines and expressions that the C for Thumb instructions is made of.

use crate::codegen::small_c;
use crate::codegen::small_c::{
    lemma_hole, lemma_plain, Declared, Expression, Field, Function, Layout, Name, Operator, Place, Program, Shift,
    Statement, Type,
};
use crate::codegen::thumb as lower;
use crate::text;
use vstd::prelude::*;

verus! {

proof fn lemma_statement_0(zero: nat, rest: Seq<char>)
    ensures
        Layout::Last.around(Statement::Assign(Place::Field(Field::Z), Expression::Int(zero)).text()) + rest == "ctx->z = "@ + (text::dec(zero) + (";\n"@ + (rest))),
        Statement::Assign(Place::Field(Field::Z), Expression::Int(zero)).grouped(),
{
    reveal_strlit("\n");
    reveal_strlit(" = ");
    reveal_strlit(";");
    reveal_strlit(";\n");
    reveal_strlit("ctx->z");
    reveal_strlit("ctx->z = ");
    small_c::lemma_numbers();
    reveal(Statement::text);
    reveal(Statement::grouped);
    reveal_with_fuel(Expression::text, 2);
    reveal_with_fuel(Expression::grouped, 2);
    assert(Layout::Last.around(Statement::Assign(Place::Field(Field::Z), Expression::Int(zero)).text()) + rest =~= "ctx->z = "@ + (text::dec(zero) + (";\n"@ + (rest))));
}

proof fn lemma_statement_1(rest: Seq<char>)
    ensures
        Layout::Middle.around(Statement::Assign(Place::Field(Field::N), Expression::Int(0)).text()) + rest == "ctx->n = 0; "@ + (rest),
        Statement::Assign(Place::Field(Field::N), Expression::Int(0)).grouped(),
{
    reveal_strlit(" ");
    reveal_strlit(" = ");
    reveal_strlit("0");
    reveal_strlit(";");
    reveal_strlit("ctx->n");
    reveal_strlit("ctx->n = 0; ");
    small_c::lemma_numbers();
    reveal(Statement::text);
    reveal(Statement::grouped);
    reveal_with_fuel(Expression::text, 2);
    reveal_with_fuel(Expression::grouped, 2);
    assert(Layout::Middle.around(Statement::Assign(Place::Field(Field::N), Expression::Int(0)).text()) + rest =~= "ctx->n = 0; "@ + (rest));
}

proof fn lemma_statement_2(rd: nat, imm: nat, rest: Seq<char>)
    ensures
        Layout::First.around(Statement::Assign(Place::Register(rd), Expression::Unsigned(imm)).text()) + rest == "    ctx->r["@ + (text::dec(rd) + ("] = "@ + (text::dec(imm) + ("u; "@ + (rest))))),
        Statement::Assign(Place::Register(rd), Expression::Unsigned(imm)).grouped(),
{
    reveal_strlit(" ");
    reveal_strlit("    ");
    reveal_strlit("    ctx->r[");
    reveal_strlit(" = ");
    reveal_strlit(";");
    reveal_strlit("]");
    reveal_strlit("] = ");
    reveal_strlit("ctx->r[");
    reveal_strlit("u");
    reveal_strlit("u; ");
    small_c::lemma_numbers();
    reveal(Statement::text);
    reveal(Statement::grouped);
    reveal_with_fuel(Expression::text, 2);
    reveal_with_fuel(Expression::grouped, 2);
    assert(Layout::First.around(Statement::Assign(Place::Register(rd), Expression::Unsigned(imm)).text()) + rest =~= "    ctx->r["@ + (text::dec(rd) + ("] = "@ + (text::dec(imm) + ("u; "@ + (rest))))));
}

proof fn lemma_text_0(x0: Seq<char>, x1: Seq<char>, x2: Seq<char>, rest: Seq<char>)
    ensures
        text::fill("    ctx->r[{}] = {}u; ctx->n = 0; ctx->z = {};"@, seq![x0, x1, x2]) + rest == "    ctx->r["@ + (x0 + ("] = "@ + (x1 + ("u; ctx->n = 0; ctx->z = "@ + (x2 + (";"@ + (rest))))))),
{
    reveal_strlit("    ctx->r[{}] = {}u; ctx->n = 0; ctx->z = {};");
    reveal_strlit("{}");
    reveal_strlit("    ctx->r[");
    reveal_strlit("] = ");
    reveal_strlit("u; ctx->n = 0; ctx->z = ");
    reveal_strlit(";");
    assert("    ctx->r[{}] = {}u; ctx->n = 0; ctx->z = {};"@ =~= "    ctx->r["@ + "{}"@ + ("] = "@ + "{}"@ + ("u; ctx->n = 0; ctx->z = "@ + "{}"@ + (";"@))));
    let args_0 = seq![x0, x1, x2];
    let args_1 = seq![x1, x2];
    let args_2 = seq![x2];
    let args_3 = Seq::<Seq<char>>::empty();
    assert(args_0.skip(1) =~= args_1);
    assert(args_1.skip(1) =~= args_2);
    assert(args_2.skip(1) =~= args_3);
    lemma_hole("    ctx->r["@, "] = "@ + "{}"@ + ("u; ctx->n = 0; ctx->z = "@ + "{}"@ + (";"@)), args_0);
    lemma_hole("] = "@, "u; ctx->n = 0; ctx->z = "@ + "{}"@ + (";"@), args_1);
    lemma_hole("u; ctx->n = 0; ctx->z = "@, ";"@, args_2);
    lemma_plain(";"@);
    assert(text::fill("    ctx->r[{}] = {}u; ctx->n = 0; ctx->z = {};"@, seq![x0, x1, x2]) + rest =~= "    ctx->r["@ + (x0 + ("] = "@ + (x1 + ("u; ctx->n = 0; ctx->z = "@ + (x2 + (";"@ + (rest))))))));
}

proof fn lemma_letters_0(rest: Seq<char>)
    ensures
        ";\n"@ + (rest) == ";"@ + ("\n"@ + (rest)),
{
    reveal_strlit(";\n");
    reveal_strlit(";");
    reveal_strlit("\n");
    assert(";\n"@ + (rest) =~= ";"@ + ("\n"@ + (rest)));
}

proof fn lemma_letters_1(rest: Seq<char>)
    ensures
        "u; "@ + ("ctx->n = 0; "@ + ("ctx->z = "@ + (rest))) == "u; ctx->n = 0; ctx->z = "@ + (rest),
{
    reveal_strlit("u; ");
    reveal_strlit("ctx->n = 0; ");
    reveal_strlit("ctx->z = ");
    reveal_strlit("u; ctx->n = 0; ctx->z = ");
    assert("u; "@ + ("ctx->n = 0; "@ + ("ctx->z = "@ + (rest))) =~= "u; ctx->n = 0; ctx->z = "@ + (rest));
}

pub open spec fn move_line(rd: nat, imm: nat, zero: nat) -> Program {
    Program::Then(
        Layout::First,
        Statement::Assign(Place::Register(rd), Expression::Unsigned(imm)),
        Box::new(Program::Then(
        Layout::Middle,
        Statement::Assign(Place::Field(Field::N), Expression::Int(0)),
        Box::new(Program::Then(
        Layout::Last,
        Statement::Assign(Place::Field(Field::Z), Expression::Int(zero)),
        Box::new(Program::End),
    )),
    )),
    )
}

pub proof fn lemma_move_line(rd: nat, imm: nat, zero: nat)
    ensures
        move_line(rd, imm, zero).text() == text::fill("    ctx->r[{}] = {}u; ctx->n = 0; ctx->z = {};"@, seq![text::dec(rd), text::dec(imm), text::dec(zero)]).push('\n'),
        move_line(rd, imm, zero).grouped(),
{
    reveal_with_fuel(Program::text, 4);
    reveal_with_fuel(Program::grouped, 4);
    lemma_statement_0(zero, Seq::<char>::empty());
    lemma_statement_1("ctx->z = "@ + (text::dec(zero) + (";\n"@ + (Seq::<char>::empty()))));
    lemma_statement_2(rd, imm, "ctx->n = 0; "@ + ("ctx->z = "@ + (text::dec(zero) + (";\n"@ + (Seq::<char>::empty())))));
    lemma_text_0(text::dec(rd), text::dec(imm), text::dec(zero), "\n"@ + Seq::<char>::empty());
    lemma_letters_0(Seq::<char>::empty());
    lemma_letters_1(text::dec(zero) + (";"@ + ("\n"@ + (Seq::<char>::empty()))));
    reveal_strlit("\n");
    assert(text::fill("    ctx->r[{}] = {}u; ctx->n = 0; ctx->z = {};"@, seq![text::dec(rd), text::dec(imm), text::dec(zero)]).push('\n') =~= text::fill("    ctx->r[{}] = {}u; ctx->n = 0; ctx->z = {};"@, seq![text::dec(rd), text::dec(imm), text::dec(zero)]) + ("\n"@ + Seq::<char>::empty()));
    assert(move_line(rd, imm, zero).text() == text::fill("    ctx->r[{}] = {}u; ctx->n = 0; ctx->z = {};"@, seq![text::dec(rd), text::dec(imm), text::dec(zero)]).push('\n'));
}

proof fn lemma_statement_3(rest: Seq<char>)
    ensures
        Layout::Last.around(Statement::Close.text()) + rest == "}\n"@ + (rest),
        Statement::Close.grouped(),
{
    reveal_strlit("\n");
    reveal_strlit("}");
    reveal_strlit("}\n");
    small_c::lemma_numbers();
    reveal(Statement::text);
    reveal(Statement::grouped);
    reveal_with_fuel(Expression::text, 2);
    reveal_with_fuel(Expression::grouped, 2);
    assert(Layout::Last.around(Statement::Close.text()) + rest =~= "}\n"@ + (rest));
}

#[verifier::rlimit(60)]
proof fn lemma_statement_4(rest: Seq<char>)
    ensures
        Layout::Middle.around(Statement::Assign(Place::Field(Field::V), Expression::Two(Operator::Right, Box::new(Expression::Group(Box::new(Expression::Two(Operator::And, Box::new(Expression::Group(Box::new(Expression::Two(Operator::Xor, Box::new(Expression::Local(Name::A)), Box::new(Expression::Local(Name::B)))))), Box::new(Expression::Group(Box::new(Expression::Two(Operator::Xor, Box::new(Expression::Local(Name::A)), Box::new(Expression::Local(Name::R)))))))))), Box::new(Expression::Int(31)))).text()) + rest == "ctx->v = ((a ^ b) & (a ^ r)) >> 31; "@ + (rest),
        Statement::Assign(Place::Field(Field::V), Expression::Two(Operator::Right, Box::new(Expression::Group(Box::new(Expression::Two(Operator::And, Box::new(Expression::Group(Box::new(Expression::Two(Operator::Xor, Box::new(Expression::Local(Name::A)), Box::new(Expression::Local(Name::B)))))), Box::new(Expression::Group(Box::new(Expression::Two(Operator::Xor, Box::new(Expression::Local(Name::A)), Box::new(Expression::Local(Name::R)))))))))), Box::new(Expression::Int(31)))).grouped(),
{
    reveal_strlit(" ");
    reveal_strlit(" & ");
    reveal_strlit(" = ");
    reveal_strlit(" >> ");
    reveal_strlit(" ^ ");
    reveal_strlit("(");
    reveal_strlit(")");
    reveal_strlit("31");
    reveal_strlit(";");
    reveal_strlit("a");
    reveal_strlit("b");
    reveal_strlit("ctx->v");
    reveal_strlit("ctx->v = ((a ^ b) & (a ^ r)) >> 31; ");
    reveal_strlit("r");
    small_c::lemma_numbers();
    reveal(Statement::text);
    reveal(Statement::grouped);
    reveal_with_fuel(Expression::text, 7);
    reveal_with_fuel(Expression::grouped, 7);
    assert(Layout::Middle.around(Statement::Assign(Place::Field(Field::V), Expression::Two(Operator::Right, Box::new(Expression::Group(Box::new(Expression::Two(Operator::And, Box::new(Expression::Group(Box::new(Expression::Two(Operator::Xor, Box::new(Expression::Local(Name::A)), Box::new(Expression::Local(Name::B)))))), Box::new(Expression::Group(Box::new(Expression::Two(Operator::Xor, Box::new(Expression::Local(Name::A)), Box::new(Expression::Local(Name::R)))))))))), Box::new(Expression::Int(31)))).text()) + rest =~= "ctx->v = ((a ^ b) & (a ^ r)) >> 31; "@ + (rest));
}

proof fn lemma_statement_5(rest: Seq<char>)
    ensures
        Layout::Middle.around(Statement::Assign(Place::Field(Field::C), Expression::Two(Operator::AtLeast, Box::new(Expression::Local(Name::A)), Box::new(Expression::Local(Name::B)))).text()) + rest == "ctx->c = a >= b; "@ + (rest),
        Statement::Assign(Place::Field(Field::C), Expression::Two(Operator::AtLeast, Box::new(Expression::Local(Name::A)), Box::new(Expression::Local(Name::B)))).grouped(),
{
    reveal_strlit(" ");
    reveal_strlit(" = ");
    reveal_strlit(" >= ");
    reveal_strlit(";");
    reveal_strlit("a");
    reveal_strlit("b");
    reveal_strlit("ctx->c");
    reveal_strlit("ctx->c = a >= b; ");
    small_c::lemma_numbers();
    reveal(Statement::text);
    reveal(Statement::grouped);
    reveal_with_fuel(Expression::text, 3);
    reveal_with_fuel(Expression::grouped, 3);
    assert(Layout::Middle.around(Statement::Assign(Place::Field(Field::C), Expression::Two(Operator::AtLeast, Box::new(Expression::Local(Name::A)), Box::new(Expression::Local(Name::B)))).text()) + rest =~= "ctx->c = a >= b; "@ + (rest));
}

proof fn lemma_statement_6(rest: Seq<char>)
    ensures
        Layout::Middle.around(Statement::Assign(Place::Field(Field::Z), Expression::Two(Operator::Equal, Box::new(Expression::Local(Name::R)), Box::new(Expression::Int(0)))).text()) + rest == "ctx->z = r == 0; "@ + (rest),
        Statement::Assign(Place::Field(Field::Z), Expression::Two(Operator::Equal, Box::new(Expression::Local(Name::R)), Box::new(Expression::Int(0)))).grouped(),
{
    reveal_strlit(" ");
    reveal_strlit(" = ");
    reveal_strlit(" == ");
    reveal_strlit("0");
    reveal_strlit(";");
    reveal_strlit("ctx->z");
    reveal_strlit("ctx->z = r == 0; ");
    reveal_strlit("r");
    small_c::lemma_numbers();
    reveal(Statement::text);
    reveal(Statement::grouped);
    reveal_with_fuel(Expression::text, 3);
    reveal_with_fuel(Expression::grouped, 3);
    assert(Layout::Middle.around(Statement::Assign(Place::Field(Field::Z), Expression::Two(Operator::Equal, Box::new(Expression::Local(Name::R)), Box::new(Expression::Int(0)))).text()) + rest =~= "ctx->z = r == 0; "@ + (rest));
}

proof fn lemma_statement_7(rest: Seq<char>)
    ensures
        Layout::Middle.around(Statement::Assign(Place::Field(Field::N), Expression::Two(Operator::Right, Box::new(Expression::Local(Name::R)), Box::new(Expression::Int(31)))).text()) + rest == "ctx->n = r >> 31; "@ + (rest),
        Statement::Assign(Place::Field(Field::N), Expression::Two(Operator::Right, Box::new(Expression::Local(Name::R)), Box::new(Expression::Int(31)))).grouped(),
{
    reveal_strlit(" ");
    reveal_strlit(" = ");
    reveal_strlit(" >> ");
    reveal_strlit("31");
    reveal_strlit(";");
    reveal_strlit("ctx->n");
    reveal_strlit("ctx->n = r >> 31; ");
    reveal_strlit("r");
    small_c::lemma_numbers();
    reveal(Statement::text);
    reveal(Statement::grouped);
    reveal_with_fuel(Expression::text, 3);
    reveal_with_fuel(Expression::grouped, 3);
    assert(Layout::Middle.around(Statement::Assign(Place::Field(Field::N), Expression::Two(Operator::Right, Box::new(Expression::Local(Name::R)), Box::new(Expression::Int(31)))).text()) + rest =~= "ctx->n = r >> 31; "@ + (rest));
}

proof fn lemma_statement_8(rd: nat, imm: nat, rest: Seq<char>)
    ensures
        Layout::Middle.around(Statement::Declare(Type::U32, Declared::More(Name::A, Expression::Register(rd), Box::new(Declared::More(Name::B, Expression::Unsigned(imm), Box::new(Declared::One(Name::R, Expression::Two(Operator::Minus, Box::new(Expression::Local(Name::A)), Box::new(Expression::Local(Name::B))))))))).text()) + rest == "uint32_t a = ctx->r["@ + (text::dec(rd) + ("], b = "@ + (text::dec(imm) + ("u, r = a - b; "@ + (rest))))),
        Statement::Declare(Type::U32, Declared::More(Name::A, Expression::Register(rd), Box::new(Declared::More(Name::B, Expression::Unsigned(imm), Box::new(Declared::One(Name::R, Expression::Two(Operator::Minus, Box::new(Expression::Local(Name::A)), Box::new(Expression::Local(Name::B))))))))).grouped(),
{
    reveal_strlit(" ");
    reveal_strlit(" - ");
    reveal_strlit(" = ");
    reveal_strlit(", ");
    reveal_strlit(";");
    reveal_strlit("]");
    reveal_strlit("], b = ");
    reveal_strlit("a");
    reveal_strlit("b");
    reveal_strlit("ctx->r[");
    reveal_strlit("r");
    reveal_strlit("u");
    reveal_strlit("u, r = a - b; ");
    reveal_strlit("uint32_t");
    reveal_strlit("uint32_t a = ctx->r[");
    small_c::lemma_numbers();
    reveal(Statement::text);
    reveal(Statement::grouped);
    reveal_with_fuel(Declared::text, 4);
    reveal_with_fuel(Declared::grouped, 4);
    reveal_with_fuel(Expression::text, 3);
    reveal_with_fuel(Expression::grouped, 3);
    assert(Layout::Middle.around(Statement::Declare(Type::U32, Declared::More(Name::A, Expression::Register(rd), Box::new(Declared::More(Name::B, Expression::Unsigned(imm), Box::new(Declared::One(Name::R, Expression::Two(Operator::Minus, Box::new(Expression::Local(Name::A)), Box::new(Expression::Local(Name::B))))))))).text()) + rest =~= "uint32_t a = ctx->r["@ + (text::dec(rd) + ("], b = "@ + (text::dec(imm) + ("u, r = a - b; "@ + (rest))))));
}

proof fn lemma_statement_9(rest: Seq<char>)
    ensures
        Layout::First.around(Statement::Open.text()) + rest == "    { "@ + (rest),
        Statement::Open.grouped(),
{
    reveal_strlit(" ");
    reveal_strlit("    ");
    reveal_strlit("    { ");
    reveal_strlit("{");
    small_c::lemma_numbers();
    reveal(Statement::text);
    reveal(Statement::grouped);
    reveal_with_fuel(Expression::text, 2);
    reveal_with_fuel(Expression::grouped, 2);
    assert(Layout::First.around(Statement::Open.text()) + rest =~= "    { "@ + (rest));
}

proof fn lemma_text_1(x0: Seq<char>, x1: Seq<char>, x2: Seq<char>, rest: Seq<char>)
    ensures
        text::fill("    { uint32_t a = ctx->r[{}], b = {}u, r = a - b; {} }"@, seq![x0, x1, x2]) + rest == "    { uint32_t a = ctx->r["@ + (x0 + ("], b = "@ + (x1 + ("u, r = a - b; "@ + (x2 + (" }"@ + (rest))))))),
{
    reveal_strlit("    { uint32_t a = ctx->r[{}], b = {}u, r = a - b; {} }");
    reveal_strlit("{}");
    reveal_strlit("    { uint32_t a = ctx->r[");
    reveal_strlit("], b = ");
    reveal_strlit("u, r = a - b; ");
    reveal_strlit(" }");
    assert("    { uint32_t a = ctx->r[{}], b = {}u, r = a - b; {} }"@ =~= "    { uint32_t a = ctx->r["@ + "{}"@ + ("], b = "@ + "{}"@ + ("u, r = a - b; "@ + "{}"@ + (" }"@))));
    let args_0 = seq![x0, x1, x2];
    let args_1 = seq![x1, x2];
    let args_2 = seq![x2];
    let args_3 = Seq::<Seq<char>>::empty();
    assert(args_0.skip(1) =~= args_1);
    assert(args_1.skip(1) =~= args_2);
    assert(args_2.skip(1) =~= args_3);
    lemma_hole("    { uint32_t a = ctx->r["@, "], b = "@ + "{}"@ + ("u, r = a - b; "@ + "{}"@ + (" }"@)), args_0);
    lemma_hole("], b = "@, "u, r = a - b; "@ + "{}"@ + (" }"@), args_1);
    lemma_hole("u, r = a - b; "@, " }"@, args_2);
    lemma_plain(" }"@);
    assert(text::fill("    { uint32_t a = ctx->r[{}], b = {}u, r = a - b; {} }"@, seq![x0, x1, x2]) + rest =~= "    { uint32_t a = ctx->r["@ + (x0 + ("], b = "@ + (x1 + ("u, r = a - b; "@ + (x2 + (" }"@ + (rest))))))));
}

proof fn lemma_letters_2(rest: Seq<char>)
    ensures
        "u, r = a - b; "@ + ("ctx->n = r >> 31; "@ + ("ctx->z = r == 0; "@ + ("ctx->c = a >= b; "@ + ("ctx->v = ((a ^ b) & (a ^ r)) >> 31; "@ + ("}\n"@ + (rest)))))) == "u, r = a - b; "@ + ("ctx->n = r >> 31; ctx->z = r == 0; ctx->c = a >= b; ctx->v = ((a ^ b) & (a ^ r)) >> 31;"@ + (" }"@ + ("\n"@ + (rest)))),
{
    reveal_strlit("u, r = a - b; ");
    reveal_strlit("ctx->n = r >> 31; ");
    reveal_strlit("ctx->z = r == 0; ");
    reveal_strlit("ctx->c = a >= b; ");
    reveal_strlit("ctx->v = ((a ^ b) & (a ^ r)) >> 31; ");
    reveal_strlit("}\n");
    reveal_strlit("ctx->n = r >> 31; ctx->z = r == 0; ctx->c = a >= b; ctx->v = ((a ^ b) & (a ^ r)) >> 31;");
    reveal_strlit(" }");
    reveal_strlit("\n");
    assert("u, r = a - b; "@ + ("ctx->n = r >> 31; "@ + ("ctx->z = r == 0; "@ + ("ctx->c = a >= b; "@ + ("ctx->v = ((a ^ b) & (a ^ r)) >> 31; "@ + ("}\n"@ + (rest)))))) =~= "u, r = a - b; "@ + ("ctx->n = r >> 31; ctx->z = r == 0; ctx->c = a >= b; ctx->v = ((a ^ b) & (a ^ r)) >> 31;"@ + (" }"@ + ("\n"@ + (rest)))));
}

proof fn lemma_letters_3(rest: Seq<char>)
    ensures
        "    { "@ + ("uint32_t a = ctx->r["@ + (rest)) == "    { uint32_t a = ctx->r["@ + (rest),
{
    reveal_strlit("    { ");
    reveal_strlit("uint32_t a = ctx->r[");
    reveal_strlit("    { uint32_t a = ctx->r[");
    assert("    { "@ + ("uint32_t a = ctx->r["@ + (rest)) =~= "    { uint32_t a = ctx->r["@ + (rest));
}

pub open spec fn compare_line(rd: nat, imm: nat) -> Program {
    Program::Then(
        Layout::First,
        Statement::Open,
        Box::new(Program::Then(
        Layout::Middle,
        Statement::Declare(Type::U32, Declared::More(Name::A, Expression::Register(rd), Box::new(Declared::More(Name::B, Expression::Unsigned(imm), Box::new(Declared::One(Name::R, Expression::Two(Operator::Minus, Box::new(Expression::Local(Name::A)), Box::new(Expression::Local(Name::B))))))))),
        Box::new(Program::Then(
        Layout::Middle,
        Statement::Assign(Place::Field(Field::N), Expression::Two(Operator::Right, Box::new(Expression::Local(Name::R)), Box::new(Expression::Int(31)))),
        Box::new(Program::Then(
        Layout::Middle,
        Statement::Assign(Place::Field(Field::Z), Expression::Two(Operator::Equal, Box::new(Expression::Local(Name::R)), Box::new(Expression::Int(0)))),
        Box::new(Program::Then(
        Layout::Middle,
        Statement::Assign(Place::Field(Field::C), Expression::Two(Operator::AtLeast, Box::new(Expression::Local(Name::A)), Box::new(Expression::Local(Name::B)))),
        Box::new(Program::Then(
        Layout::Middle,
        Statement::Assign(Place::Field(Field::V), Expression::Two(Operator::Right, Box::new(Expression::Group(Box::new(Expression::Two(Operator::And, Box::new(Expression::Group(Box::new(Expression::Two(Operator::Xor, Box::new(Expression::Local(Name::A)), Box::new(Expression::Local(Name::B)))))), Box::new(Expression::Group(Box::new(Expression::Two(Operator::Xor, Box::new(Expression::Local(Name::A)), Box::new(Expression::Local(Name::R)))))))))), Box::new(Expression::Int(31)))),
        Box::new(Program::Then(
        Layout::Last,
        Statement::Close,
        Box::new(Program::End),
    )),
    )),
    )),
    )),
    )),
    )),
    )
}

pub proof fn lemma_compare_line(rd: nat, imm: nat)
    ensures
        compare_line(rd, imm).text() == text::fill("    { uint32_t a = ctx->r[{}], b = {}u, r = a - b; {} }"@, seq![text::dec(rd), text::dec(imm), lower::SUB_FLAGS@]).push('\n'),
        compare_line(rd, imm).grouped(),
{
    reveal_with_fuel(Program::text, 8);
    reveal_with_fuel(Program::grouped, 8);
    lemma_statement_3(Seq::<char>::empty());
    lemma_statement_4("}\n"@ + (Seq::<char>::empty()));
    lemma_statement_5("ctx->v = ((a ^ b) & (a ^ r)) >> 31; "@ + ("}\n"@ + (Seq::<char>::empty())));
    lemma_statement_6("ctx->c = a >= b; "@ + ("ctx->v = ((a ^ b) & (a ^ r)) >> 31; "@ + ("}\n"@ + (Seq::<char>::empty()))));
    lemma_statement_7("ctx->z = r == 0; "@ + ("ctx->c = a >= b; "@ + ("ctx->v = ((a ^ b) & (a ^ r)) >> 31; "@ + ("}\n"@ + (Seq::<char>::empty())))));
    lemma_statement_8(rd, imm, "ctx->n = r >> 31; "@ + ("ctx->z = r == 0; "@ + ("ctx->c = a >= b; "@ + ("ctx->v = ((a ^ b) & (a ^ r)) >> 31; "@ + ("}\n"@ + (Seq::<char>::empty()))))));
    lemma_statement_9("uint32_t a = ctx->r["@ + (text::dec(rd) + ("], b = "@ + (text::dec(imm) + ("u, r = a - b; "@ + ("ctx->n = r >> 31; "@ + ("ctx->z = r == 0; "@ + ("ctx->c = a >= b; "@ + ("ctx->v = ((a ^ b) & (a ^ r)) >> 31; "@ + ("}\n"@ + (Seq::<char>::empty())))))))))));
    assert(lower::SUB_FLAGS@ == "ctx->n = r >> 31; ctx->z = r == 0; ctx->c = a >= b; ctx->v = ((a ^ b) & (a ^ r)) >> 31;"@);
    lemma_text_1(text::dec(rd), text::dec(imm), lower::SUB_FLAGS@, "\n"@ + Seq::<char>::empty());
    lemma_letters_2(Seq::<char>::empty());
    lemma_letters_3(text::dec(rd) + ("], b = "@ + (text::dec(imm) + ("u, r = a - b; "@ + ("ctx->n = r >> 31; ctx->z = r == 0; ctx->c = a >= b; ctx->v = ((a ^ b) & (a ^ r)) >> 31;"@ + (" }"@ + ("\n"@ + (Seq::<char>::empty()))))))));
    reveal_strlit("\n");
    assert(text::fill("    { uint32_t a = ctx->r[{}], b = {}u, r = a - b; {} }"@, seq![text::dec(rd), text::dec(imm), lower::SUB_FLAGS@]).push('\n') =~= text::fill("    { uint32_t a = ctx->r[{}], b = {}u, r = a - b; {} }"@, seq![text::dec(rd), text::dec(imm), lower::SUB_FLAGS@]) + ("\n"@ + Seq::<char>::empty()));
    assert(compare_line(rd, imm).text() == text::fill("    { uint32_t a = ctx->r[{}], b = {}u, r = a - b; {} }"@, seq![text::dec(rd), text::dec(imm), lower::SUB_FLAGS@]).push('\n'));
}

#[verifier::rlimit(60)]
proof fn lemma_statement_10(rest: Seq<char>)
    ensures
        Layout::Middle.around(Statement::Assign(Place::Field(Field::V), Expression::Two(Operator::Right, Box::new(Expression::Group(Box::new(Expression::Two(Operator::And, Box::new(Expression::Group(Box::new(Expression::Two(Operator::Xor, Box::new(Expression::Local(Name::A)), Box::new(Expression::Local(Name::R)))))), Box::new(Expression::Group(Box::new(Expression::Two(Operator::Xor, Box::new(Expression::Local(Name::B)), Box::new(Expression::Local(Name::R)))))))))), Box::new(Expression::Int(31)))).text()) + rest == "ctx->v = ((a ^ r) & (b ^ r)) >> 31; "@ + (rest),
        Statement::Assign(Place::Field(Field::V), Expression::Two(Operator::Right, Box::new(Expression::Group(Box::new(Expression::Two(Operator::And, Box::new(Expression::Group(Box::new(Expression::Two(Operator::Xor, Box::new(Expression::Local(Name::A)), Box::new(Expression::Local(Name::R)))))), Box::new(Expression::Group(Box::new(Expression::Two(Operator::Xor, Box::new(Expression::Local(Name::B)), Box::new(Expression::Local(Name::R)))))))))), Box::new(Expression::Int(31)))).grouped(),
{
    reveal_strlit(" ");
    reveal_strlit(" & ");
    reveal_strlit(" = ");
    reveal_strlit(" >> ");
    reveal_strlit(" ^ ");
    reveal_strlit("(");
    reveal_strlit(")");
    reveal_strlit("31");
    reveal_strlit(";");
    reveal_strlit("a");
    reveal_strlit("b");
    reveal_strlit("ctx->v");
    reveal_strlit("ctx->v = ((a ^ r) & (b ^ r)) >> 31; ");
    reveal_strlit("r");
    small_c::lemma_numbers();
    reveal(Statement::text);
    reveal(Statement::grouped);
    reveal_with_fuel(Expression::text, 7);
    reveal_with_fuel(Expression::grouped, 7);
    assert(Layout::Middle.around(Statement::Assign(Place::Field(Field::V), Expression::Two(Operator::Right, Box::new(Expression::Group(Box::new(Expression::Two(Operator::And, Box::new(Expression::Group(Box::new(Expression::Two(Operator::Xor, Box::new(Expression::Local(Name::A)), Box::new(Expression::Local(Name::R)))))), Box::new(Expression::Group(Box::new(Expression::Two(Operator::Xor, Box::new(Expression::Local(Name::B)), Box::new(Expression::Local(Name::R)))))))))), Box::new(Expression::Int(31)))).text()) + rest =~= "ctx->v = ((a ^ r) & (b ^ r)) >> 31; "@ + (rest));
}

proof fn lemma_statement_11(rest: Seq<char>)
    ensures
        Layout::Middle.around(Statement::Assign(Place::Field(Field::C), Expression::Two(Operator::Less, Box::new(Expression::Local(Name::R)), Box::new(Expression::Local(Name::A)))).text()) + rest == "ctx->c = r < a; "@ + (rest),
        Statement::Assign(Place::Field(Field::C), Expression::Two(Operator::Less, Box::new(Expression::Local(Name::R)), Box::new(Expression::Local(Name::A)))).grouped(),
{
    reveal_strlit(" ");
    reveal_strlit(" < ");
    reveal_strlit(" = ");
    reveal_strlit(";");
    reveal_strlit("a");
    reveal_strlit("ctx->c");
    reveal_strlit("ctx->c = r < a; ");
    reveal_strlit("r");
    small_c::lemma_numbers();
    reveal(Statement::text);
    reveal(Statement::grouped);
    reveal_with_fuel(Expression::text, 3);
    reveal_with_fuel(Expression::grouped, 3);
    assert(Layout::Middle.around(Statement::Assign(Place::Field(Field::C), Expression::Two(Operator::Less, Box::new(Expression::Local(Name::R)), Box::new(Expression::Local(Name::A)))).text()) + rest =~= "ctx->c = r < a; "@ + (rest));
}

proof fn lemma_statement_12(rd: nat, rest: Seq<char>)
    ensures
        Layout::Middle.around(Statement::Assign(Place::Register(rd), Expression::Local(Name::R)).text()) + rest == "ctx->r["@ + (text::dec(rd) + ("] = r; "@ + (rest))),
        Statement::Assign(Place::Register(rd), Expression::Local(Name::R)).grouped(),
{
    reveal_strlit(" ");
    reveal_strlit(" = ");
    reveal_strlit(";");
    reveal_strlit("]");
    reveal_strlit("] = r; ");
    reveal_strlit("ctx->r[");
    reveal_strlit("r");
    small_c::lemma_numbers();
    reveal(Statement::text);
    reveal(Statement::grouped);
    reveal_with_fuel(Expression::text, 2);
    reveal_with_fuel(Expression::grouped, 2);
    assert(Layout::Middle.around(Statement::Assign(Place::Register(rd), Expression::Local(Name::R)).text()) + rest =~= "ctx->r["@ + (text::dec(rd) + ("] = r; "@ + (rest))));
}

proof fn lemma_statement_13(rd: nat, imm: nat, rest: Seq<char>)
    ensures
        Layout::Middle.around(Statement::Declare(Type::U32, Declared::More(Name::A, Expression::Register(rd), Box::new(Declared::More(Name::B, Expression::Unsigned(imm), Box::new(Declared::One(Name::R, Expression::Two(Operator::Plus, Box::new(Expression::Local(Name::A)), Box::new(Expression::Local(Name::B))))))))).text()) + rest == "uint32_t a = ctx->r["@ + (text::dec(rd) + ("], b = "@ + (text::dec(imm) + ("u, r = a + b; "@ + (rest))))),
        Statement::Declare(Type::U32, Declared::More(Name::A, Expression::Register(rd), Box::new(Declared::More(Name::B, Expression::Unsigned(imm), Box::new(Declared::One(Name::R, Expression::Two(Operator::Plus, Box::new(Expression::Local(Name::A)), Box::new(Expression::Local(Name::B))))))))).grouped(),
{
    reveal_strlit(" ");
    reveal_strlit(" + ");
    reveal_strlit(" = ");
    reveal_strlit(", ");
    reveal_strlit(";");
    reveal_strlit("]");
    reveal_strlit("], b = ");
    reveal_strlit("a");
    reveal_strlit("b");
    reveal_strlit("ctx->r[");
    reveal_strlit("r");
    reveal_strlit("u");
    reveal_strlit("u, r = a + b; ");
    reveal_strlit("uint32_t");
    reveal_strlit("uint32_t a = ctx->r[");
    small_c::lemma_numbers();
    reveal(Statement::text);
    reveal(Statement::grouped);
    reveal_with_fuel(Declared::text, 4);
    reveal_with_fuel(Declared::grouped, 4);
    reveal_with_fuel(Expression::text, 3);
    reveal_with_fuel(Expression::grouped, 3);
    assert(Layout::Middle.around(Statement::Declare(Type::U32, Declared::More(Name::A, Expression::Register(rd), Box::new(Declared::More(Name::B, Expression::Unsigned(imm), Box::new(Declared::One(Name::R, Expression::Two(Operator::Plus, Box::new(Expression::Local(Name::A)), Box::new(Expression::Local(Name::B))))))))).text()) + rest =~= "uint32_t a = ctx->r["@ + (text::dec(rd) + ("], b = "@ + (text::dec(imm) + ("u, r = a + b; "@ + (rest))))));
}

proof fn lemma_text_2(x0: Seq<char>, x1: Seq<char>, x2: Seq<char>, x3: Seq<char>, rest: Seq<char>)
    ensures
        text::fill("    { uint32_t a = ctx->r[{}], b = {}u, r = a + b; ctx->r[{}] = r; {} }"@, seq![x0, x1, x2, x3]) + rest == "    { uint32_t a = ctx->r["@ + (x0 + ("], b = "@ + (x1 + ("u, r = a + b; ctx->r["@ + (x2 + ("] = r; "@ + (x3 + (" }"@ + (rest))))))))),
{
    reveal_strlit("    { uint32_t a = ctx->r[{}], b = {}u, r = a + b; ctx->r[{}] = r; {} }");
    reveal_strlit("{}");
    reveal_strlit("    { uint32_t a = ctx->r[");
    reveal_strlit("], b = ");
    reveal_strlit("u, r = a + b; ctx->r[");
    reveal_strlit("] = r; ");
    reveal_strlit(" }");
    assert("    { uint32_t a = ctx->r[{}], b = {}u, r = a + b; ctx->r[{}] = r; {} }"@ =~= "    { uint32_t a = ctx->r["@ + "{}"@ + ("], b = "@ + "{}"@ + ("u, r = a + b; ctx->r["@ + "{}"@ + ("] = r; "@ + "{}"@ + (" }"@)))));
    let args_0 = seq![x0, x1, x2, x3];
    let args_1 = seq![x1, x2, x3];
    let args_2 = seq![x2, x3];
    let args_3 = seq![x3];
    let args_4 = Seq::<Seq<char>>::empty();
    assert(args_0.skip(1) =~= args_1);
    assert(args_1.skip(1) =~= args_2);
    assert(args_2.skip(1) =~= args_3);
    assert(args_3.skip(1) =~= args_4);
    lemma_hole("    { uint32_t a = ctx->r["@, "], b = "@ + "{}"@ + ("u, r = a + b; ctx->r["@ + "{}"@ + ("] = r; "@ + "{}"@ + (" }"@))), args_0);
    lemma_hole("], b = "@, "u, r = a + b; ctx->r["@ + "{}"@ + ("] = r; "@ + "{}"@ + (" }"@)), args_1);
    lemma_hole("u, r = a + b; ctx->r["@, "] = r; "@ + "{}"@ + (" }"@), args_2);
    lemma_hole("] = r; "@, " }"@, args_3);
    lemma_plain(" }"@);
    assert(text::fill("    { uint32_t a = ctx->r[{}], b = {}u, r = a + b; ctx->r[{}] = r; {} }"@, seq![x0, x1, x2, x3]) + rest =~= "    { uint32_t a = ctx->r["@ + (x0 + ("], b = "@ + (x1 + ("u, r = a + b; ctx->r["@ + (x2 + ("] = r; "@ + (x3 + (" }"@ + (rest))))))))));
}

proof fn lemma_letters_4(rest: Seq<char>)
    ensures
        "] = r; "@ + ("ctx->n = r >> 31; "@ + ("ctx->z = r == 0; "@ + ("ctx->c = r < a; "@ + ("ctx->v = ((a ^ r) & (b ^ r)) >> 31; "@ + ("}\n"@ + (rest)))))) == "] = r; "@ + ("ctx->n = r >> 31; ctx->z = r == 0; ctx->c = r < a; ctx->v = ((a ^ r) & (b ^ r)) >> 31;"@ + (" }"@ + ("\n"@ + (rest)))),
{
    reveal_strlit("] = r; ");
    reveal_strlit("ctx->n = r >> 31; ");
    reveal_strlit("ctx->z = r == 0; ");
    reveal_strlit("ctx->c = r < a; ");
    reveal_strlit("ctx->v = ((a ^ r) & (b ^ r)) >> 31; ");
    reveal_strlit("}\n");
    reveal_strlit("ctx->n = r >> 31; ctx->z = r == 0; ctx->c = r < a; ctx->v = ((a ^ r) & (b ^ r)) >> 31;");
    reveal_strlit(" }");
    reveal_strlit("\n");
    assert("] = r; "@ + ("ctx->n = r >> 31; "@ + ("ctx->z = r == 0; "@ + ("ctx->c = r < a; "@ + ("ctx->v = ((a ^ r) & (b ^ r)) >> 31; "@ + ("}\n"@ + (rest)))))) =~= "] = r; "@ + ("ctx->n = r >> 31; ctx->z = r == 0; ctx->c = r < a; ctx->v = ((a ^ r) & (b ^ r)) >> 31;"@ + (" }"@ + ("\n"@ + (rest)))));
}

proof fn lemma_letters_5(rest: Seq<char>)
    ensures
        "u, r = a + b; "@ + ("ctx->r["@ + (rest)) == "u, r = a + b; ctx->r["@ + (rest),
{
    reveal_strlit("u, r = a + b; ");
    reveal_strlit("ctx->r[");
    reveal_strlit("u, r = a + b; ctx->r[");
    assert("u, r = a + b; "@ + ("ctx->r["@ + (rest)) =~= "u, r = a + b; ctx->r["@ + (rest));
}

pub open spec fn add_immediate_line(rd: nat, imm: nat) -> Program {
    Program::Then(
        Layout::First,
        Statement::Open,
        Box::new(Program::Then(
        Layout::Middle,
        Statement::Declare(Type::U32, Declared::More(Name::A, Expression::Register(rd), Box::new(Declared::More(Name::B, Expression::Unsigned(imm), Box::new(Declared::One(Name::R, Expression::Two(Operator::Plus, Box::new(Expression::Local(Name::A)), Box::new(Expression::Local(Name::B))))))))),
        Box::new(Program::Then(
        Layout::Middle,
        Statement::Assign(Place::Register(rd), Expression::Local(Name::R)),
        Box::new(Program::Then(
        Layout::Middle,
        Statement::Assign(Place::Field(Field::N), Expression::Two(Operator::Right, Box::new(Expression::Local(Name::R)), Box::new(Expression::Int(31)))),
        Box::new(Program::Then(
        Layout::Middle,
        Statement::Assign(Place::Field(Field::Z), Expression::Two(Operator::Equal, Box::new(Expression::Local(Name::R)), Box::new(Expression::Int(0)))),
        Box::new(Program::Then(
        Layout::Middle,
        Statement::Assign(Place::Field(Field::C), Expression::Two(Operator::Less, Box::new(Expression::Local(Name::R)), Box::new(Expression::Local(Name::A)))),
        Box::new(Program::Then(
        Layout::Middle,
        Statement::Assign(Place::Field(Field::V), Expression::Two(Operator::Right, Box::new(Expression::Group(Box::new(Expression::Two(Operator::And, Box::new(Expression::Group(Box::new(Expression::Two(Operator::Xor, Box::new(Expression::Local(Name::A)), Box::new(Expression::Local(Name::R)))))), Box::new(Expression::Group(Box::new(Expression::Two(Operator::Xor, Box::new(Expression::Local(Name::B)), Box::new(Expression::Local(Name::R)))))))))), Box::new(Expression::Int(31)))),
        Box::new(Program::Then(
        Layout::Last,
        Statement::Close,
        Box::new(Program::End),
    )),
    )),
    )),
    )),
    )),
    )),
    )),
    )
}

pub proof fn lemma_add_immediate_line(rd: nat, imm: nat)
    ensures
        add_immediate_line(rd, imm).text() == text::fill("    { uint32_t a = ctx->r[{}], b = {}u, r = a + b; ctx->r[{}] = r; {} }"@, seq![text::dec(rd), text::dec(imm), text::dec(rd), lower::ADD_FLAGS@]).push('\n'),
        add_immediate_line(rd, imm).grouped(),
{
    reveal_with_fuel(Program::text, 9);
    reveal_with_fuel(Program::grouped, 9);
    lemma_statement_3(Seq::<char>::empty());
    lemma_statement_10("}\n"@ + (Seq::<char>::empty()));
    lemma_statement_11("ctx->v = ((a ^ r) & (b ^ r)) >> 31; "@ + ("}\n"@ + (Seq::<char>::empty())));
    lemma_statement_6("ctx->c = r < a; "@ + ("ctx->v = ((a ^ r) & (b ^ r)) >> 31; "@ + ("}\n"@ + (Seq::<char>::empty()))));
    lemma_statement_7("ctx->z = r == 0; "@ + ("ctx->c = r < a; "@ + ("ctx->v = ((a ^ r) & (b ^ r)) >> 31; "@ + ("}\n"@ + (Seq::<char>::empty())))));
    lemma_statement_12(rd, "ctx->n = r >> 31; "@ + ("ctx->z = r == 0; "@ + ("ctx->c = r < a; "@ + ("ctx->v = ((a ^ r) & (b ^ r)) >> 31; "@ + ("}\n"@ + (Seq::<char>::empty()))))));
    lemma_statement_13(rd, imm, "ctx->r["@ + (text::dec(rd) + ("] = r; "@ + ("ctx->n = r >> 31; "@ + ("ctx->z = r == 0; "@ + ("ctx->c = r < a; "@ + ("ctx->v = ((a ^ r) & (b ^ r)) >> 31; "@ + ("}\n"@ + (Seq::<char>::empty())))))))));
    lemma_statement_9("uint32_t a = ctx->r["@ + (text::dec(rd) + ("], b = "@ + (text::dec(imm) + ("u, r = a + b; "@ + ("ctx->r["@ + (text::dec(rd) + ("] = r; "@ + ("ctx->n = r >> 31; "@ + ("ctx->z = r == 0; "@ + ("ctx->c = r < a; "@ + ("ctx->v = ((a ^ r) & (b ^ r)) >> 31; "@ + ("}\n"@ + (Seq::<char>::empty()))))))))))))));
    assert(lower::ADD_FLAGS@ == "ctx->n = r >> 31; ctx->z = r == 0; ctx->c = r < a; ctx->v = ((a ^ r) & (b ^ r)) >> 31;"@);
    lemma_text_2(text::dec(rd), text::dec(imm), text::dec(rd), lower::ADD_FLAGS@, "\n"@ + Seq::<char>::empty());
    lemma_letters_4(Seq::<char>::empty());
    lemma_letters_5(text::dec(rd) + ("] = r; "@ + ("ctx->n = r >> 31; ctx->z = r == 0; ctx->c = r < a; ctx->v = ((a ^ r) & (b ^ r)) >> 31;"@ + (" }"@ + ("\n"@ + (Seq::<char>::empty()))))));
    lemma_letters_3(text::dec(rd) + ("], b = "@ + (text::dec(imm) + ("u, r = a + b; ctx->r["@ + (text::dec(rd) + ("] = r; "@ + ("ctx->n = r >> 31; ctx->z = r == 0; ctx->c = r < a; ctx->v = ((a ^ r) & (b ^ r)) >> 31;"@ + (" }"@ + ("\n"@ + (Seq::<char>::empty()))))))))));
    reveal_strlit("\n");
    assert(text::fill("    { uint32_t a = ctx->r[{}], b = {}u, r = a + b; ctx->r[{}] = r; {} }"@, seq![text::dec(rd), text::dec(imm), text::dec(rd), lower::ADD_FLAGS@]).push('\n') =~= text::fill("    { uint32_t a = ctx->r[{}], b = {}u, r = a + b; ctx->r[{}] = r; {} }"@, seq![text::dec(rd), text::dec(imm), text::dec(rd), lower::ADD_FLAGS@]) + ("\n"@ + Seq::<char>::empty()));
    assert(add_immediate_line(rd, imm).text() == text::fill("    { uint32_t a = ctx->r[{}], b = {}u, r = a + b; ctx->r[{}] = r; {} }"@, seq![text::dec(rd), text::dec(imm), text::dec(rd), lower::ADD_FLAGS@]).push('\n'));
}

proof fn lemma_statement_14(rs: nat, b: Expression, rest: Seq<char>)
    requires
        b.grouped(),
    ensures
        Layout::Middle.around(Statement::Declare(Type::U32, Declared::More(Name::A, Expression::Register(rs), Box::new(Declared::More(Name::B, b, Box::new(Declared::One(Name::R, Expression::Two(Operator::Plus, Box::new(Expression::Local(Name::A)), Box::new(Expression::Local(Name::B))))))))).text()) + rest == "uint32_t a = ctx->r["@ + (text::dec(rs) + ("], b = "@ + (b.text() + (", r = a + b; "@ + (rest))))),
        Statement::Declare(Type::U32, Declared::More(Name::A, Expression::Register(rs), Box::new(Declared::More(Name::B, b, Box::new(Declared::One(Name::R, Expression::Two(Operator::Plus, Box::new(Expression::Local(Name::A)), Box::new(Expression::Local(Name::B))))))))).grouped(),
{
    reveal_strlit(" ");
    reveal_strlit(" + ");
    reveal_strlit(" = ");
    reveal_strlit(", ");
    reveal_strlit(", r = a + b; ");
    reveal_strlit(";");
    reveal_strlit("]");
    reveal_strlit("], b = ");
    reveal_strlit("a");
    reveal_strlit("b");
    reveal_strlit("ctx->r[");
    reveal_strlit("r");
    reveal_strlit("uint32_t");
    reveal_strlit("uint32_t a = ctx->r[");
    small_c::lemma_numbers();
    reveal(Statement::text);
    reveal(Statement::grouped);
    reveal_with_fuel(Declared::text, 4);
    reveal_with_fuel(Declared::grouped, 4);
    reveal_with_fuel(Expression::text, 3);
    reveal_with_fuel(Expression::grouped, 3);
    assert(Layout::Middle.around(Statement::Declare(Type::U32, Declared::More(Name::A, Expression::Register(rs), Box::new(Declared::More(Name::B, b, Box::new(Declared::One(Name::R, Expression::Two(Operator::Plus, Box::new(Expression::Local(Name::A)), Box::new(Expression::Local(Name::B))))))))).text()) + rest =~= "uint32_t a = ctx->r["@ + (text::dec(rs) + ("], b = "@ + (b.text() + (", r = a + b; "@ + (rest))))));
}

proof fn lemma_text_3(x0: Seq<char>, x1: Seq<char>, x2: Seq<char>, x3: Seq<char>, rest: Seq<char>)
    ensures
        text::fill("    { uint32_t a = ctx->r[{}], b = {}, r = a + b; ctx->r[{}] = r; {} }"@, seq![x0, x1, x2, x3]) + rest == "    { uint32_t a = ctx->r["@ + (x0 + ("], b = "@ + (x1 + (", r = a + b; ctx->r["@ + (x2 + ("] = r; "@ + (x3 + (" }"@ + (rest))))))))),
{
    reveal_strlit("    { uint32_t a = ctx->r[{}], b = {}, r = a + b; ctx->r[{}] = r; {} }");
    reveal_strlit("{}");
    reveal_strlit("    { uint32_t a = ctx->r[");
    reveal_strlit("], b = ");
    reveal_strlit(", r = a + b; ctx->r[");
    reveal_strlit("] = r; ");
    reveal_strlit(" }");
    assert("    { uint32_t a = ctx->r[{}], b = {}, r = a + b; ctx->r[{}] = r; {} }"@ =~= "    { uint32_t a = ctx->r["@ + "{}"@ + ("], b = "@ + "{}"@ + (", r = a + b; ctx->r["@ + "{}"@ + ("] = r; "@ + "{}"@ + (" }"@)))));
    let args_0 = seq![x0, x1, x2, x3];
    let args_1 = seq![x1, x2, x3];
    let args_2 = seq![x2, x3];
    let args_3 = seq![x3];
    let args_4 = Seq::<Seq<char>>::empty();
    assert(args_0.skip(1) =~= args_1);
    assert(args_1.skip(1) =~= args_2);
    assert(args_2.skip(1) =~= args_3);
    assert(args_3.skip(1) =~= args_4);
    lemma_hole("    { uint32_t a = ctx->r["@, "], b = "@ + "{}"@ + (", r = a + b; ctx->r["@ + "{}"@ + ("] = r; "@ + "{}"@ + (" }"@))), args_0);
    lemma_hole("], b = "@, ", r = a + b; ctx->r["@ + "{}"@ + ("] = r; "@ + "{}"@ + (" }"@)), args_1);
    lemma_hole(", r = a + b; ctx->r["@, "] = r; "@ + "{}"@ + (" }"@), args_2);
    lemma_hole("] = r; "@, " }"@, args_3);
    lemma_plain(" }"@);
    assert(text::fill("    { uint32_t a = ctx->r[{}], b = {}, r = a + b; ctx->r[{}] = r; {} }"@, seq![x0, x1, x2, x3]) + rest =~= "    { uint32_t a = ctx->r["@ + (x0 + ("], b = "@ + (x1 + (", r = a + b; ctx->r["@ + (x2 + ("] = r; "@ + (x3 + (" }"@ + (rest))))))))));
}

proof fn lemma_letters_6(rest: Seq<char>)
    ensures
        ", r = a + b; "@ + ("ctx->r["@ + (rest)) == ", r = a + b; ctx->r["@ + (rest),
{
    reveal_strlit(", r = a + b; ");
    reveal_strlit("ctx->r[");
    reveal_strlit(", r = a + b; ctx->r[");
    assert(", r = a + b; "@ + ("ctx->r["@ + (rest)) =~= ", r = a + b; ctx->r["@ + (rest));
}

pub open spec fn add_line(rs: nat, b: Expression, rd: nat) -> Program {
    Program::Then(
        Layout::First,
        Statement::Open,
        Box::new(Program::Then(
        Layout::Middle,
        Statement::Declare(Type::U32, Declared::More(Name::A, Expression::Register(rs), Box::new(Declared::More(Name::B, b, Box::new(Declared::One(Name::R, Expression::Two(Operator::Plus, Box::new(Expression::Local(Name::A)), Box::new(Expression::Local(Name::B))))))))),
        Box::new(Program::Then(
        Layout::Middle,
        Statement::Assign(Place::Register(rd), Expression::Local(Name::R)),
        Box::new(Program::Then(
        Layout::Middle,
        Statement::Assign(Place::Field(Field::N), Expression::Two(Operator::Right, Box::new(Expression::Local(Name::R)), Box::new(Expression::Int(31)))),
        Box::new(Program::Then(
        Layout::Middle,
        Statement::Assign(Place::Field(Field::Z), Expression::Two(Operator::Equal, Box::new(Expression::Local(Name::R)), Box::new(Expression::Int(0)))),
        Box::new(Program::Then(
        Layout::Middle,
        Statement::Assign(Place::Field(Field::C), Expression::Two(Operator::Less, Box::new(Expression::Local(Name::R)), Box::new(Expression::Local(Name::A)))),
        Box::new(Program::Then(
        Layout::Middle,
        Statement::Assign(Place::Field(Field::V), Expression::Two(Operator::Right, Box::new(Expression::Group(Box::new(Expression::Two(Operator::And, Box::new(Expression::Group(Box::new(Expression::Two(Operator::Xor, Box::new(Expression::Local(Name::A)), Box::new(Expression::Local(Name::R)))))), Box::new(Expression::Group(Box::new(Expression::Two(Operator::Xor, Box::new(Expression::Local(Name::B)), Box::new(Expression::Local(Name::R)))))))))), Box::new(Expression::Int(31)))),
        Box::new(Program::Then(
        Layout::Last,
        Statement::Close,
        Box::new(Program::End),
    )),
    )),
    )),
    )),
    )),
    )),
    )),
    )
}

pub proof fn lemma_add_line(rs: nat, b: Expression, rd: nat)
    requires
        b.grouped(),
    ensures
        add_line(rs, b, rd).text() == text::fill("    { uint32_t a = ctx->r[{}], b = {}, r = a + b; ctx->r[{}] = r; {} }"@, seq![text::dec(rs), b.text(), text::dec(rd), lower::ADD_FLAGS@]).push('\n'),
        add_line(rs, b, rd).grouped(),
{
    reveal_with_fuel(Program::text, 9);
    reveal_with_fuel(Program::grouped, 9);
    lemma_statement_3(Seq::<char>::empty());
    lemma_statement_10("}\n"@ + (Seq::<char>::empty()));
    lemma_statement_11("ctx->v = ((a ^ r) & (b ^ r)) >> 31; "@ + ("}\n"@ + (Seq::<char>::empty())));
    lemma_statement_6("ctx->c = r < a; "@ + ("ctx->v = ((a ^ r) & (b ^ r)) >> 31; "@ + ("}\n"@ + (Seq::<char>::empty()))));
    lemma_statement_7("ctx->z = r == 0; "@ + ("ctx->c = r < a; "@ + ("ctx->v = ((a ^ r) & (b ^ r)) >> 31; "@ + ("}\n"@ + (Seq::<char>::empty())))));
    lemma_statement_12(rd, "ctx->n = r >> 31; "@ + ("ctx->z = r == 0; "@ + ("ctx->c = r < a; "@ + ("ctx->v = ((a ^ r) & (b ^ r)) >> 31; "@ + ("}\n"@ + (Seq::<char>::empty()))))));
    lemma_statement_14(rs, b, "ctx->r["@ + (text::dec(rd) + ("] = r; "@ + ("ctx->n = r >> 31; "@ + ("ctx->z = r == 0; "@ + ("ctx->c = r < a; "@ + ("ctx->v = ((a ^ r) & (b ^ r)) >> 31; "@ + ("}\n"@ + (Seq::<char>::empty())))))))));
    lemma_statement_9("uint32_t a = ctx->r["@ + (text::dec(rs) + ("], b = "@ + (b.text() + (", r = a + b; "@ + ("ctx->r["@ + (text::dec(rd) + ("] = r; "@ + ("ctx->n = r >> 31; "@ + ("ctx->z = r == 0; "@ + ("ctx->c = r < a; "@ + ("ctx->v = ((a ^ r) & (b ^ r)) >> 31; "@ + ("}\n"@ + (Seq::<char>::empty()))))))))))))));
    assert(lower::ADD_FLAGS@ == "ctx->n = r >> 31; ctx->z = r == 0; ctx->c = r < a; ctx->v = ((a ^ r) & (b ^ r)) >> 31;"@);
    lemma_text_3(text::dec(rs), b.text(), text::dec(rd), lower::ADD_FLAGS@, "\n"@ + Seq::<char>::empty());
    lemma_letters_4(Seq::<char>::empty());
    lemma_letters_6(text::dec(rd) + ("] = r; "@ + ("ctx->n = r >> 31; ctx->z = r == 0; ctx->c = r < a; ctx->v = ((a ^ r) & (b ^ r)) >> 31;"@ + (" }"@ + ("\n"@ + (Seq::<char>::empty()))))));
    lemma_letters_3(text::dec(rs) + ("], b = "@ + (b.text() + (", r = a + b; ctx->r["@ + (text::dec(rd) + ("] = r; "@ + ("ctx->n = r >> 31; ctx->z = r == 0; ctx->c = r < a; ctx->v = ((a ^ r) & (b ^ r)) >> 31;"@ + (" }"@ + ("\n"@ + (Seq::<char>::empty()))))))))));
    reveal_strlit("\n");
    assert(text::fill("    { uint32_t a = ctx->r[{}], b = {}, r = a + b; ctx->r[{}] = r; {} }"@, seq![text::dec(rs), b.text(), text::dec(rd), lower::ADD_FLAGS@]).push('\n') =~= text::fill("    { uint32_t a = ctx->r[{}], b = {}, r = a + b; ctx->r[{}] = r; {} }"@, seq![text::dec(rs), b.text(), text::dec(rd), lower::ADD_FLAGS@]) + ("\n"@ + Seq::<char>::empty()));
    assert(add_line(rs, b, rd).text() == text::fill("    { uint32_t a = ctx->r[{}], b = {}, r = a + b; ctx->r[{}] = r; {} }"@, seq![text::dec(rs), b.text(), text::dec(rd), lower::ADD_FLAGS@]).push('\n'));
}

proof fn lemma_text_4(x0: Seq<char>, x1: Seq<char>, x2: Seq<char>, x3: Seq<char>, rest: Seq<char>)
    ensures
        text::fill("    { uint32_t a = ctx->r[{}], b = {}u, r = a - b; ctx->r[{}] = r; {} }"@, seq![x0, x1, x2, x3]) + rest == "    { uint32_t a = ctx->r["@ + (x0 + ("], b = "@ + (x1 + ("u, r = a - b; ctx->r["@ + (x2 + ("] = r; "@ + (x3 + (" }"@ + (rest))))))))),
{
    reveal_strlit("    { uint32_t a = ctx->r[{}], b = {}u, r = a - b; ctx->r[{}] = r; {} }");
    reveal_strlit("{}");
    reveal_strlit("    { uint32_t a = ctx->r[");
    reveal_strlit("], b = ");
    reveal_strlit("u, r = a - b; ctx->r[");
    reveal_strlit("] = r; ");
    reveal_strlit(" }");
    assert("    { uint32_t a = ctx->r[{}], b = {}u, r = a - b; ctx->r[{}] = r; {} }"@ =~= "    { uint32_t a = ctx->r["@ + "{}"@ + ("], b = "@ + "{}"@ + ("u, r = a - b; ctx->r["@ + "{}"@ + ("] = r; "@ + "{}"@ + (" }"@)))));
    let args_0 = seq![x0, x1, x2, x3];
    let args_1 = seq![x1, x2, x3];
    let args_2 = seq![x2, x3];
    let args_3 = seq![x3];
    let args_4 = Seq::<Seq<char>>::empty();
    assert(args_0.skip(1) =~= args_1);
    assert(args_1.skip(1) =~= args_2);
    assert(args_2.skip(1) =~= args_3);
    assert(args_3.skip(1) =~= args_4);
    lemma_hole("    { uint32_t a = ctx->r["@, "], b = "@ + "{}"@ + ("u, r = a - b; ctx->r["@ + "{}"@ + ("] = r; "@ + "{}"@ + (" }"@))), args_0);
    lemma_hole("], b = "@, "u, r = a - b; ctx->r["@ + "{}"@ + ("] = r; "@ + "{}"@ + (" }"@)), args_1);
    lemma_hole("u, r = a - b; ctx->r["@, "] = r; "@ + "{}"@ + (" }"@), args_2);
    lemma_hole("] = r; "@, " }"@, args_3);
    lemma_plain(" }"@);
    assert(text::fill("    { uint32_t a = ctx->r[{}], b = {}u, r = a - b; ctx->r[{}] = r; {} }"@, seq![x0, x1, x2, x3]) + rest =~= "    { uint32_t a = ctx->r["@ + (x0 + ("], b = "@ + (x1 + ("u, r = a - b; ctx->r["@ + (x2 + ("] = r; "@ + (x3 + (" }"@ + (rest))))))))));
}

proof fn lemma_letters_7(rest: Seq<char>)
    ensures
        "] = r; "@ + ("ctx->n = r >> 31; "@ + ("ctx->z = r == 0; "@ + ("ctx->c = a >= b; "@ + ("ctx->v = ((a ^ b) & (a ^ r)) >> 31; "@ + ("}\n"@ + (rest)))))) == "] = r; "@ + ("ctx->n = r >> 31; ctx->z = r == 0; ctx->c = a >= b; ctx->v = ((a ^ b) & (a ^ r)) >> 31;"@ + (" }"@ + ("\n"@ + (rest)))),
{
    reveal_strlit("] = r; ");
    reveal_strlit("ctx->n = r >> 31; ");
    reveal_strlit("ctx->z = r == 0; ");
    reveal_strlit("ctx->c = a >= b; ");
    reveal_strlit("ctx->v = ((a ^ b) & (a ^ r)) >> 31; ");
    reveal_strlit("}\n");
    reveal_strlit("ctx->n = r >> 31; ctx->z = r == 0; ctx->c = a >= b; ctx->v = ((a ^ b) & (a ^ r)) >> 31;");
    reveal_strlit(" }");
    reveal_strlit("\n");
    assert("] = r; "@ + ("ctx->n = r >> 31; "@ + ("ctx->z = r == 0; "@ + ("ctx->c = a >= b; "@ + ("ctx->v = ((a ^ b) & (a ^ r)) >> 31; "@ + ("}\n"@ + (rest)))))) =~= "] = r; "@ + ("ctx->n = r >> 31; ctx->z = r == 0; ctx->c = a >= b; ctx->v = ((a ^ b) & (a ^ r)) >> 31;"@ + (" }"@ + ("\n"@ + (rest)))));
}

proof fn lemma_letters_8(rest: Seq<char>)
    ensures
        "u, r = a - b; "@ + ("ctx->r["@ + (rest)) == "u, r = a - b; ctx->r["@ + (rest),
{
    reveal_strlit("u, r = a - b; ");
    reveal_strlit("ctx->r[");
    reveal_strlit("u, r = a - b; ctx->r[");
    assert("u, r = a - b; "@ + ("ctx->r["@ + (rest)) =~= "u, r = a - b; ctx->r["@ + (rest));
}

pub open spec fn subtract_immediate_line(rd: nat, imm: nat) -> Program {
    Program::Then(
        Layout::First,
        Statement::Open,
        Box::new(Program::Then(
        Layout::Middle,
        Statement::Declare(Type::U32, Declared::More(Name::A, Expression::Register(rd), Box::new(Declared::More(Name::B, Expression::Unsigned(imm), Box::new(Declared::One(Name::R, Expression::Two(Operator::Minus, Box::new(Expression::Local(Name::A)), Box::new(Expression::Local(Name::B))))))))),
        Box::new(Program::Then(
        Layout::Middle,
        Statement::Assign(Place::Register(rd), Expression::Local(Name::R)),
        Box::new(Program::Then(
        Layout::Middle,
        Statement::Assign(Place::Field(Field::N), Expression::Two(Operator::Right, Box::new(Expression::Local(Name::R)), Box::new(Expression::Int(31)))),
        Box::new(Program::Then(
        Layout::Middle,
        Statement::Assign(Place::Field(Field::Z), Expression::Two(Operator::Equal, Box::new(Expression::Local(Name::R)), Box::new(Expression::Int(0)))),
        Box::new(Program::Then(
        Layout::Middle,
        Statement::Assign(Place::Field(Field::C), Expression::Two(Operator::AtLeast, Box::new(Expression::Local(Name::A)), Box::new(Expression::Local(Name::B)))),
        Box::new(Program::Then(
        Layout::Middle,
        Statement::Assign(Place::Field(Field::V), Expression::Two(Operator::Right, Box::new(Expression::Group(Box::new(Expression::Two(Operator::And, Box::new(Expression::Group(Box::new(Expression::Two(Operator::Xor, Box::new(Expression::Local(Name::A)), Box::new(Expression::Local(Name::B)))))), Box::new(Expression::Group(Box::new(Expression::Two(Operator::Xor, Box::new(Expression::Local(Name::A)), Box::new(Expression::Local(Name::R)))))))))), Box::new(Expression::Int(31)))),
        Box::new(Program::Then(
        Layout::Last,
        Statement::Close,
        Box::new(Program::End),
    )),
    )),
    )),
    )),
    )),
    )),
    )),
    )
}

pub proof fn lemma_subtract_immediate_line(rd: nat, imm: nat)
    ensures
        subtract_immediate_line(rd, imm).text() == text::fill("    { uint32_t a = ctx->r[{}], b = {}u, r = a - b; ctx->r[{}] = r; {} }"@, seq![text::dec(rd), text::dec(imm), text::dec(rd), lower::SUB_FLAGS@]).push('\n'),
        subtract_immediate_line(rd, imm).grouped(),
{
    reveal_with_fuel(Program::text, 9);
    reveal_with_fuel(Program::grouped, 9);
    lemma_statement_3(Seq::<char>::empty());
    lemma_statement_4("}\n"@ + (Seq::<char>::empty()));
    lemma_statement_5("ctx->v = ((a ^ b) & (a ^ r)) >> 31; "@ + ("}\n"@ + (Seq::<char>::empty())));
    lemma_statement_6("ctx->c = a >= b; "@ + ("ctx->v = ((a ^ b) & (a ^ r)) >> 31; "@ + ("}\n"@ + (Seq::<char>::empty()))));
    lemma_statement_7("ctx->z = r == 0; "@ + ("ctx->c = a >= b; "@ + ("ctx->v = ((a ^ b) & (a ^ r)) >> 31; "@ + ("}\n"@ + (Seq::<char>::empty())))));
    lemma_statement_12(rd, "ctx->n = r >> 31; "@ + ("ctx->z = r == 0; "@ + ("ctx->c = a >= b; "@ + ("ctx->v = ((a ^ b) & (a ^ r)) >> 31; "@ + ("}\n"@ + (Seq::<char>::empty()))))));
    lemma_statement_8(rd, imm, "ctx->r["@ + (text::dec(rd) + ("] = r; "@ + ("ctx->n = r >> 31; "@ + ("ctx->z = r == 0; "@ + ("ctx->c = a >= b; "@ + ("ctx->v = ((a ^ b) & (a ^ r)) >> 31; "@ + ("}\n"@ + (Seq::<char>::empty())))))))));
    lemma_statement_9("uint32_t a = ctx->r["@ + (text::dec(rd) + ("], b = "@ + (text::dec(imm) + ("u, r = a - b; "@ + ("ctx->r["@ + (text::dec(rd) + ("] = r; "@ + ("ctx->n = r >> 31; "@ + ("ctx->z = r == 0; "@ + ("ctx->c = a >= b; "@ + ("ctx->v = ((a ^ b) & (a ^ r)) >> 31; "@ + ("}\n"@ + (Seq::<char>::empty()))))))))))))));
    assert(lower::SUB_FLAGS@ == "ctx->n = r >> 31; ctx->z = r == 0; ctx->c = a >= b; ctx->v = ((a ^ b) & (a ^ r)) >> 31;"@);
    lemma_text_4(text::dec(rd), text::dec(imm), text::dec(rd), lower::SUB_FLAGS@, "\n"@ + Seq::<char>::empty());
    lemma_letters_7(Seq::<char>::empty());
    lemma_letters_8(text::dec(rd) + ("] = r; "@ + ("ctx->n = r >> 31; ctx->z = r == 0; ctx->c = a >= b; ctx->v = ((a ^ b) & (a ^ r)) >> 31;"@ + (" }"@ + ("\n"@ + (Seq::<char>::empty()))))));
    lemma_letters_3(text::dec(rd) + ("], b = "@ + (text::dec(imm) + ("u, r = a - b; ctx->r["@ + (text::dec(rd) + ("] = r; "@ + ("ctx->n = r >> 31; ctx->z = r == 0; ctx->c = a >= b; ctx->v = ((a ^ b) & (a ^ r)) >> 31;"@ + (" }"@ + ("\n"@ + (Seq::<char>::empty()))))))))));
    reveal_strlit("\n");
    assert(text::fill("    { uint32_t a = ctx->r[{}], b = {}u, r = a - b; ctx->r[{}] = r; {} }"@, seq![text::dec(rd), text::dec(imm), text::dec(rd), lower::SUB_FLAGS@]).push('\n') =~= text::fill("    { uint32_t a = ctx->r[{}], b = {}u, r = a - b; ctx->r[{}] = r; {} }"@, seq![text::dec(rd), text::dec(imm), text::dec(rd), lower::SUB_FLAGS@]) + ("\n"@ + Seq::<char>::empty()));
    assert(subtract_immediate_line(rd, imm).text() == text::fill("    { uint32_t a = ctx->r[{}], b = {}u, r = a - b; ctx->r[{}] = r; {} }"@, seq![text::dec(rd), text::dec(imm), text::dec(rd), lower::SUB_FLAGS@]).push('\n'));
}

proof fn lemma_statement_15(rs: nat, b: Expression, rest: Seq<char>)
    requires
        b.grouped(),
    ensures
        Layout::Middle.around(Statement::Declare(Type::U32, Declared::More(Name::A, Expression::Register(rs), Box::new(Declared::More(Name::B, b, Box::new(Declared::One(Name::R, Expression::Two(Operator::Minus, Box::new(Expression::Local(Name::A)), Box::new(Expression::Local(Name::B))))))))).text()) + rest == "uint32_t a = ctx->r["@ + (text::dec(rs) + ("], b = "@ + (b.text() + (", r = a - b; "@ + (rest))))),
        Statement::Declare(Type::U32, Declared::More(Name::A, Expression::Register(rs), Box::new(Declared::More(Name::B, b, Box::new(Declared::One(Name::R, Expression::Two(Operator::Minus, Box::new(Expression::Local(Name::A)), Box::new(Expression::Local(Name::B))))))))).grouped(),
{
    reveal_strlit(" ");
    reveal_strlit(" - ");
    reveal_strlit(" = ");
    reveal_strlit(", ");
    reveal_strlit(", r = a - b; ");
    reveal_strlit(";");
    reveal_strlit("]");
    reveal_strlit("], b = ");
    reveal_strlit("a");
    reveal_strlit("b");
    reveal_strlit("ctx->r[");
    reveal_strlit("r");
    reveal_strlit("uint32_t");
    reveal_strlit("uint32_t a = ctx->r[");
    small_c::lemma_numbers();
    reveal(Statement::text);
    reveal(Statement::grouped);
    reveal_with_fuel(Declared::text, 4);
    reveal_with_fuel(Declared::grouped, 4);
    reveal_with_fuel(Expression::text, 3);
    reveal_with_fuel(Expression::grouped, 3);
    assert(Layout::Middle.around(Statement::Declare(Type::U32, Declared::More(Name::A, Expression::Register(rs), Box::new(Declared::More(Name::B, b, Box::new(Declared::One(Name::R, Expression::Two(Operator::Minus, Box::new(Expression::Local(Name::A)), Box::new(Expression::Local(Name::B))))))))).text()) + rest =~= "uint32_t a = ctx->r["@ + (text::dec(rs) + ("], b = "@ + (b.text() + (", r = a - b; "@ + (rest))))));
}

proof fn lemma_text_5(x0: Seq<char>, x1: Seq<char>, x2: Seq<char>, x3: Seq<char>, rest: Seq<char>)
    ensures
        text::fill("    { uint32_t a = ctx->r[{}], b = {}, r = a - b; ctx->r[{}] = r; {} }"@, seq![x0, x1, x2, x3]) + rest == "    { uint32_t a = ctx->r["@ + (x0 + ("], b = "@ + (x1 + (", r = a - b; ctx->r["@ + (x2 + ("] = r; "@ + (x3 + (" }"@ + (rest))))))))),
{
    reveal_strlit("    { uint32_t a = ctx->r[{}], b = {}, r = a - b; ctx->r[{}] = r; {} }");
    reveal_strlit("{}");
    reveal_strlit("    { uint32_t a = ctx->r[");
    reveal_strlit("], b = ");
    reveal_strlit(", r = a - b; ctx->r[");
    reveal_strlit("] = r; ");
    reveal_strlit(" }");
    assert("    { uint32_t a = ctx->r[{}], b = {}, r = a - b; ctx->r[{}] = r; {} }"@ =~= "    { uint32_t a = ctx->r["@ + "{}"@ + ("], b = "@ + "{}"@ + (", r = a - b; ctx->r["@ + "{}"@ + ("] = r; "@ + "{}"@ + (" }"@)))));
    let args_0 = seq![x0, x1, x2, x3];
    let args_1 = seq![x1, x2, x3];
    let args_2 = seq![x2, x3];
    let args_3 = seq![x3];
    let args_4 = Seq::<Seq<char>>::empty();
    assert(args_0.skip(1) =~= args_1);
    assert(args_1.skip(1) =~= args_2);
    assert(args_2.skip(1) =~= args_3);
    assert(args_3.skip(1) =~= args_4);
    lemma_hole("    { uint32_t a = ctx->r["@, "], b = "@ + "{}"@ + (", r = a - b; ctx->r["@ + "{}"@ + ("] = r; "@ + "{}"@ + (" }"@))), args_0);
    lemma_hole("], b = "@, ", r = a - b; ctx->r["@ + "{}"@ + ("] = r; "@ + "{}"@ + (" }"@)), args_1);
    lemma_hole(", r = a - b; ctx->r["@, "] = r; "@ + "{}"@ + (" }"@), args_2);
    lemma_hole("] = r; "@, " }"@, args_3);
    lemma_plain(" }"@);
    assert(text::fill("    { uint32_t a = ctx->r[{}], b = {}, r = a - b; ctx->r[{}] = r; {} }"@, seq![x0, x1, x2, x3]) + rest =~= "    { uint32_t a = ctx->r["@ + (x0 + ("], b = "@ + (x1 + (", r = a - b; ctx->r["@ + (x2 + ("] = r; "@ + (x3 + (" }"@ + (rest))))))))));
}

proof fn lemma_letters_9(rest: Seq<char>)
    ensures
        ", r = a - b; "@ + ("ctx->r["@ + (rest)) == ", r = a - b; ctx->r["@ + (rest),
{
    reveal_strlit(", r = a - b; ");
    reveal_strlit("ctx->r[");
    reveal_strlit(", r = a - b; ctx->r[");
    assert(", r = a - b; "@ + ("ctx->r["@ + (rest)) =~= ", r = a - b; ctx->r["@ + (rest));
}

pub open spec fn subtract_line(rs: nat, b: Expression, rd: nat) -> Program {
    Program::Then(
        Layout::First,
        Statement::Open,
        Box::new(Program::Then(
        Layout::Middle,
        Statement::Declare(Type::U32, Declared::More(Name::A, Expression::Register(rs), Box::new(Declared::More(Name::B, b, Box::new(Declared::One(Name::R, Expression::Two(Operator::Minus, Box::new(Expression::Local(Name::A)), Box::new(Expression::Local(Name::B))))))))),
        Box::new(Program::Then(
        Layout::Middle,
        Statement::Assign(Place::Register(rd), Expression::Local(Name::R)),
        Box::new(Program::Then(
        Layout::Middle,
        Statement::Assign(Place::Field(Field::N), Expression::Two(Operator::Right, Box::new(Expression::Local(Name::R)), Box::new(Expression::Int(31)))),
        Box::new(Program::Then(
        Layout::Middle,
        Statement::Assign(Place::Field(Field::Z), Expression::Two(Operator::Equal, Box::new(Expression::Local(Name::R)), Box::new(Expression::Int(0)))),
        Box::new(Program::Then(
        Layout::Middle,
        Statement::Assign(Place::Field(Field::C), Expression::Two(Operator::AtLeast, Box::new(Expression::Local(Name::A)), Box::new(Expression::Local(Name::B)))),
        Box::new(Program::Then(
        Layout::Middle,
        Statement::Assign(Place::Field(Field::V), Expression::Two(Operator::Right, Box::new(Expression::Group(Box::new(Expression::Two(Operator::And, Box::new(Expression::Group(Box::new(Expression::Two(Operator::Xor, Box::new(Expression::Local(Name::A)), Box::new(Expression::Local(Name::B)))))), Box::new(Expression::Group(Box::new(Expression::Two(Operator::Xor, Box::new(Expression::Local(Name::A)), Box::new(Expression::Local(Name::R)))))))))), Box::new(Expression::Int(31)))),
        Box::new(Program::Then(
        Layout::Last,
        Statement::Close,
        Box::new(Program::End),
    )),
    )),
    )),
    )),
    )),
    )),
    )),
    )
}

pub proof fn lemma_subtract_line(rs: nat, b: Expression, rd: nat)
    requires
        b.grouped(),
    ensures
        subtract_line(rs, b, rd).text() == text::fill("    { uint32_t a = ctx->r[{}], b = {}, r = a - b; ctx->r[{}] = r; {} }"@, seq![text::dec(rs), b.text(), text::dec(rd), lower::SUB_FLAGS@]).push('\n'),
        subtract_line(rs, b, rd).grouped(),
{
    reveal_with_fuel(Program::text, 9);
    reveal_with_fuel(Program::grouped, 9);
    lemma_statement_3(Seq::<char>::empty());
    lemma_statement_4("}\n"@ + (Seq::<char>::empty()));
    lemma_statement_5("ctx->v = ((a ^ b) & (a ^ r)) >> 31; "@ + ("}\n"@ + (Seq::<char>::empty())));
    lemma_statement_6("ctx->c = a >= b; "@ + ("ctx->v = ((a ^ b) & (a ^ r)) >> 31; "@ + ("}\n"@ + (Seq::<char>::empty()))));
    lemma_statement_7("ctx->z = r == 0; "@ + ("ctx->c = a >= b; "@ + ("ctx->v = ((a ^ b) & (a ^ r)) >> 31; "@ + ("}\n"@ + (Seq::<char>::empty())))));
    lemma_statement_12(rd, "ctx->n = r >> 31; "@ + ("ctx->z = r == 0; "@ + ("ctx->c = a >= b; "@ + ("ctx->v = ((a ^ b) & (a ^ r)) >> 31; "@ + ("}\n"@ + (Seq::<char>::empty()))))));
    lemma_statement_15(rs, b, "ctx->r["@ + (text::dec(rd) + ("] = r; "@ + ("ctx->n = r >> 31; "@ + ("ctx->z = r == 0; "@ + ("ctx->c = a >= b; "@ + ("ctx->v = ((a ^ b) & (a ^ r)) >> 31; "@ + ("}\n"@ + (Seq::<char>::empty())))))))));
    lemma_statement_9("uint32_t a = ctx->r["@ + (text::dec(rs) + ("], b = "@ + (b.text() + (", r = a - b; "@ + ("ctx->r["@ + (text::dec(rd) + ("] = r; "@ + ("ctx->n = r >> 31; "@ + ("ctx->z = r == 0; "@ + ("ctx->c = a >= b; "@ + ("ctx->v = ((a ^ b) & (a ^ r)) >> 31; "@ + ("}\n"@ + (Seq::<char>::empty()))))))))))))));
    assert(lower::SUB_FLAGS@ == "ctx->n = r >> 31; ctx->z = r == 0; ctx->c = a >= b; ctx->v = ((a ^ b) & (a ^ r)) >> 31;"@);
    lemma_text_5(text::dec(rs), b.text(), text::dec(rd), lower::SUB_FLAGS@, "\n"@ + Seq::<char>::empty());
    lemma_letters_7(Seq::<char>::empty());
    lemma_letters_9(text::dec(rd) + ("] = r; "@ + ("ctx->n = r >> 31; ctx->z = r == 0; ctx->c = a >= b; ctx->v = ((a ^ b) & (a ^ r)) >> 31;"@ + (" }"@ + ("\n"@ + (Seq::<char>::empty()))))));
    lemma_letters_3(text::dec(rs) + ("], b = "@ + (b.text() + (", r = a - b; ctx->r["@ + (text::dec(rd) + ("] = r; "@ + ("ctx->n = r >> 31; ctx->z = r == 0; ctx->c = a >= b; ctx->v = ((a ^ b) & (a ^ r)) >> 31;"@ + (" }"@ + ("\n"@ + (Seq::<char>::empty()))))))))));
    reveal_strlit("\n");
    assert(text::fill("    { uint32_t a = ctx->r[{}], b = {}, r = a - b; ctx->r[{}] = r; {} }"@, seq![text::dec(rs), b.text(), text::dec(rd), lower::SUB_FLAGS@]).push('\n') =~= text::fill("    { uint32_t a = ctx->r[{}], b = {}, r = a - b; ctx->r[{}] = r; {} }"@, seq![text::dec(rs), b.text(), text::dec(rd), lower::SUB_FLAGS@]) + ("\n"@ + Seq::<char>::empty()));
    assert(subtract_line(rs, b, rd).text() == text::fill("    { uint32_t a = ctx->r[{}], b = {}, r = a - b; ctx->r[{}] = r; {} }"@, seq![text::dec(rs), b.text(), text::dec(rd), lower::SUB_FLAGS@]).push('\n'));
}

proof fn lemma_text_6(x0: Seq<char>, rest: Seq<char>)
    ensures
        text::fill("{}u"@, seq![x0]) + rest == x0 + ("u"@ + (rest)),
{
    reveal_strlit("{}u");
    reveal_strlit("{}");
    reveal_strlit("");
    reveal_strlit("u");
    assert("{}u"@ =~= ""@ + "{}"@ + ("u"@));
    let args_0 = seq![x0];
    let args_1 = Seq::<Seq<char>>::empty();
    assert(args_0.skip(1) =~= args_1);
    lemma_hole(""@, "u"@, args_0);
    lemma_plain("u"@);
    assert(text::fill("{}u"@, seq![x0]) + rest =~= x0 + ("u"@ + (rest)));
}

pub open spec fn unsigned_expression(n: nat) -> Expression {
    Expression::Unsigned(n)
}

pub proof fn lemma_unsigned_expression(n: nat)
    ensures
        unsigned_expression(n).text() == text::fill("{}u"@, seq![text::dec(n)]),
        unsigned_expression(n).grouped(),
{
    reveal_strlit("u");
    small_c::lemma_numbers();
    lemma_text_6(text::dec(n), Seq::<char>::empty());
    reveal_with_fuel(Expression::text, 2);
    reveal_with_fuel(Expression::grouped, 2);
    let whole = text::fill("{}u"@, seq![text::dec(n)]) + Seq::<char>::empty();
    assert(whole =~= text::fill("{}u"@, seq![text::dec(n)]));
    assert(unsigned_expression(n).text() =~= whole);
}

proof fn lemma_statement_16(y: Expression, rest: Seq<char>)
    requires
        y.grouped(),
    ensures
        Layout::Middle.around(Statement::Assign(Place::Field(Field::C), y).text()) + rest == "ctx->c = "@ + (y.text() + ("; "@ + (rest))),
        Statement::Assign(Place::Field(Field::C), y).grouped(),
{
    reveal_strlit(" ");
    reveal_strlit(" = ");
    reveal_strlit(";");
    reveal_strlit("; ");
    reveal_strlit("ctx->c");
    reveal_strlit("ctx->c = ");
    small_c::lemma_numbers();
    reveal(Statement::text);
    reveal(Statement::grouped);
    assert(Layout::Middle.around(Statement::Assign(Place::Field(Field::C), y).text()) + rest =~= "ctx->c = "@ + (y.text() + ("; "@ + (rest))));
}

proof fn lemma_statement_17(rs: nat, x: Expression, rest: Seq<char>)
    requires
        x.grouped(),
    ensures
        Layout::Middle.around(Statement::Declare(Type::U32, Declared::More(Name::M, Expression::Register(rs), Box::new(Declared::One(Name::R, x)))).text()) + rest == "uint32_t m = ctx->r["@ + (text::dec(rs) + ("], r = "@ + (x.text() + ("; "@ + (rest))))),
        Statement::Declare(Type::U32, Declared::More(Name::M, Expression::Register(rs), Box::new(Declared::One(Name::R, x)))).grouped(),
{
    reveal_strlit(" ");
    reveal_strlit(" = ");
    reveal_strlit(", ");
    reveal_strlit(";");
    reveal_strlit("; ");
    reveal_strlit("]");
    reveal_strlit("], r = ");
    reveal_strlit("ctx->r[");
    reveal_strlit("m");
    reveal_strlit("r");
    reveal_strlit("uint32_t");
    reveal_strlit("uint32_t m = ctx->r[");
    small_c::lemma_numbers();
    reveal(Statement::text);
    reveal(Statement::grouped);
    reveal_with_fuel(Declared::text, 3);
    reveal_with_fuel(Declared::grouped, 3);
    reveal_with_fuel(Expression::text, 2);
    reveal_with_fuel(Expression::grouped, 2);
    assert(Layout::Middle.around(Statement::Declare(Type::U32, Declared::More(Name::M, Expression::Register(rs), Box::new(Declared::One(Name::R, x)))).text()) + rest =~= "uint32_t m = ctx->r["@ + (text::dec(rs) + ("], r = "@ + (x.text() + ("; "@ + (rest))))));
}

proof fn lemma_text_7(x0: Seq<char>, x1: Seq<char>, x2: Seq<char>, x3: Seq<char>, x4: Seq<char>, rest: Seq<char>)
    ensures
        text::fill("    { uint32_t m = ctx->r[{}], r = {};{} ctx->r[{}] = r; {} }"@, seq![x0, x1, x2, x3, x4]) + rest == "    { uint32_t m = ctx->r["@ + (x0 + ("], r = "@ + (x1 + (";"@ + (x2 + (" ctx->r["@ + (x3 + ("] = r; "@ + (x4 + (" }"@ + (rest))))))))))),
{
    reveal_strlit("    { uint32_t m = ctx->r[{}], r = {};{} ctx->r[{}] = r; {} }");
    reveal_strlit("{}");
    reveal_strlit("    { uint32_t m = ctx->r[");
    reveal_strlit("], r = ");
    reveal_strlit(";");
    reveal_strlit(" ctx->r[");
    reveal_strlit("] = r; ");
    reveal_strlit(" }");
    assert("    { uint32_t m = ctx->r[{}], r = {};{} ctx->r[{}] = r; {} }"@ =~= "    { uint32_t m = ctx->r["@ + "{}"@ + ("], r = "@ + "{}"@ + (";"@ + "{}"@ + (" ctx->r["@ + "{}"@ + ("] = r; "@ + "{}"@ + (" }"@))))));
    let args_0 = seq![x0, x1, x2, x3, x4];
    let args_1 = seq![x1, x2, x3, x4];
    let args_2 = seq![x2, x3, x4];
    let args_3 = seq![x3, x4];
    let args_4 = seq![x4];
    let args_5 = Seq::<Seq<char>>::empty();
    assert(args_0.skip(1) =~= args_1);
    assert(args_1.skip(1) =~= args_2);
    assert(args_2.skip(1) =~= args_3);
    assert(args_3.skip(1) =~= args_4);
    assert(args_4.skip(1) =~= args_5);
    lemma_hole("    { uint32_t m = ctx->r["@, "], r = "@ + "{}"@ + (";"@ + "{}"@ + (" ctx->r["@ + "{}"@ + ("] = r; "@ + "{}"@ + (" }"@)))), args_0);
    lemma_hole("], r = "@, ";"@ + "{}"@ + (" ctx->r["@ + "{}"@ + ("] = r; "@ + "{}"@ + (" }"@))), args_1);
    lemma_hole(";"@, " ctx->r["@ + "{}"@ + ("] = r; "@ + "{}"@ + (" }"@)), args_2);
    lemma_hole(" ctx->r["@, "] = r; "@ + "{}"@ + (" }"@), args_3);
    lemma_hole("] = r; "@, " }"@, args_4);
    lemma_plain(" }"@);
    assert(text::fill("    { uint32_t m = ctx->r[{}], r = {};{} ctx->r[{}] = r; {} }"@, seq![x0, x1, x2, x3, x4]) + rest =~= "    { uint32_t m = ctx->r["@ + (x0 + ("], r = "@ + (x1 + (";"@ + (x2 + (" ctx->r["@ + (x3 + ("] = r; "@ + (x4 + (" }"@ + (rest))))))))))));
}

proof fn lemma_text_8(x0: Seq<char>, rest: Seq<char>)
    ensures
        text::fill(" ctx->c = {};"@, seq![x0]) + rest == " ctx->c = "@ + (x0 + (";"@ + (rest))),
{
    reveal_strlit(" ctx->c = {};");
    reveal_strlit("{}");
    reveal_strlit(" ctx->c = ");
    reveal_strlit(";");
    assert(" ctx->c = {};"@ =~= " ctx->c = "@ + "{}"@ + (";"@));
    let args_0 = seq![x0];
    let args_1 = Seq::<Seq<char>>::empty();
    assert(args_0.skip(1) =~= args_1);
    lemma_hole(" ctx->c = "@, ";"@, args_0);
    lemma_plain(";"@);
    assert(text::fill(" ctx->c = {};"@, seq![x0]) + rest =~= " ctx->c = "@ + (x0 + (";"@ + (rest))));
}

proof fn lemma_letters_10(rest: Seq<char>)
    ensures
        "] = r; "@ + ("ctx->n = r >> 31; "@ + ("ctx->z = r == 0; "@ + ("}\n"@ + (rest)))) == "] = r; "@ + ("ctx->n = r >> 31; ctx->z = r == 0;"@ + (" }"@ + ("\n"@ + (rest)))),
{
    reveal_strlit("] = r; ");
    reveal_strlit("ctx->n = r >> 31; ");
    reveal_strlit("ctx->z = r == 0; ");
    reveal_strlit("}\n");
    reveal_strlit("ctx->n = r >> 31; ctx->z = r == 0;");
    reveal_strlit(" }");
    reveal_strlit("\n");
    assert("] = r; "@ + ("ctx->n = r >> 31; "@ + ("ctx->z = r == 0; "@ + ("}\n"@ + (rest)))) =~= "] = r; "@ + ("ctx->n = r >> 31; ctx->z = r == 0;"@ + (" }"@ + ("\n"@ + (rest)))));
}

proof fn lemma_letters_11(rest: Seq<char>)
    ensures
        "; "@ + ("ctx->r["@ + (rest)) == ";"@ + (" ctx->r["@ + (rest)),
{
    reveal_strlit("; ");
    reveal_strlit("ctx->r[");
    reveal_strlit(";");
    reveal_strlit(" ctx->r[");
    assert("; "@ + ("ctx->r["@ + (rest)) =~= ";"@ + (" ctx->r["@ + (rest)));
}

proof fn lemma_letters_12(rest: Seq<char>)
    ensures
        "; "@ + ("ctx->c = "@ + (rest)) == ";"@ + (" ctx->c = "@ + (rest)),
{
    reveal_strlit("; ");
    reveal_strlit("ctx->c = ");
    reveal_strlit(";");
    reveal_strlit(" ctx->c = ");
    assert("; "@ + ("ctx->c = "@ + (rest)) =~= ";"@ + (" ctx->c = "@ + (rest)));
}

proof fn lemma_letters_13(rest: Seq<char>)
    ensures
        "    { "@ + ("uint32_t m = ctx->r["@ + (rest)) == "    { uint32_t m = ctx->r["@ + (rest),
{
    reveal_strlit("    { ");
    reveal_strlit("uint32_t m = ctx->r[");
    reveal_strlit("    { uint32_t m = ctx->r[");
    assert("    { "@ + ("uint32_t m = ctx->r["@ + (rest)) =~= "    { uint32_t m = ctx->r["@ + (rest));
}

pub open spec fn shift_line(rs: nat, x: Expression, y: Expression, rd: nat) -> Program {
    Program::Then(
        Layout::First,
        Statement::Open,
        Box::new(Program::Then(
        Layout::Middle,
        Statement::Declare(Type::U32, Declared::More(Name::M, Expression::Register(rs), Box::new(Declared::One(Name::R, x)))),
        Box::new(Program::Then(
        Layout::Middle,
        Statement::Assign(Place::Field(Field::C), y),
        Box::new(Program::Then(
        Layout::Middle,
        Statement::Assign(Place::Register(rd), Expression::Local(Name::R)),
        Box::new(Program::Then(
        Layout::Middle,
        Statement::Assign(Place::Field(Field::N), Expression::Two(Operator::Right, Box::new(Expression::Local(Name::R)), Box::new(Expression::Int(31)))),
        Box::new(Program::Then(
        Layout::Middle,
        Statement::Assign(Place::Field(Field::Z), Expression::Two(Operator::Equal, Box::new(Expression::Local(Name::R)), Box::new(Expression::Int(0)))),
        Box::new(Program::Then(
        Layout::Last,
        Statement::Close,
        Box::new(Program::End),
    )),
    )),
    )),
    )),
    )),
    )),
    )
}

pub proof fn lemma_shift_line(rs: nat, x: Expression, y: Expression, rd: nat)
    requires
        x.grouped(),
        y.grouped(),
    ensures
        shift_line(rs, x, y, rd).text() == text::fill("    { uint32_t m = ctx->r[{}], r = {};{} ctx->r[{}] = r; {} }"@, seq![text::dec(rs), x.text(), text::fill(" ctx->c = {};"@, seq![y.text()]), text::dec(rd), lower::NZ@]).push('\n'),
        shift_line(rs, x, y, rd).grouped(),
{
    reveal_with_fuel(Program::text, 8);
    reveal_with_fuel(Program::grouped, 8);
    lemma_statement_3(Seq::<char>::empty());
    lemma_statement_6("}\n"@ + (Seq::<char>::empty()));
    lemma_statement_7("ctx->z = r == 0; "@ + ("}\n"@ + (Seq::<char>::empty())));
    lemma_statement_12(rd, "ctx->n = r >> 31; "@ + ("ctx->z = r == 0; "@ + ("}\n"@ + (Seq::<char>::empty()))));
    lemma_statement_16(y, "ctx->r["@ + (text::dec(rd) + ("] = r; "@ + ("ctx->n = r >> 31; "@ + ("ctx->z = r == 0; "@ + ("}\n"@ + (Seq::<char>::empty())))))));
    lemma_statement_17(rs, x, "ctx->c = "@ + (y.text() + ("; "@ + ("ctx->r["@ + (text::dec(rd) + ("] = r; "@ + ("ctx->n = r >> 31; "@ + ("ctx->z = r == 0; "@ + ("}\n"@ + (Seq::<char>::empty()))))))))));
    lemma_statement_9("uint32_t m = ctx->r["@ + (text::dec(rs) + ("], r = "@ + (x.text() + ("; "@ + ("ctx->c = "@ + (y.text() + ("; "@ + ("ctx->r["@ + (text::dec(rd) + ("] = r; "@ + ("ctx->n = r >> 31; "@ + ("ctx->z = r == 0; "@ + ("}\n"@ + (Seq::<char>::empty())))))))))))))));
    assert(lower::NZ@ == "ctx->n = r >> 31; ctx->z = r == 0;"@);
    lemma_text_8(y.text(), " ctx->r["@ + (text::dec(rd) + ("] = r; "@ + ("ctx->n = r >> 31; ctx->z = r == 0;"@ + (" }"@ + ("\n"@ + Seq::<char>::empty()))))));
    lemma_text_7(text::dec(rs), x.text(), text::fill(" ctx->c = {};"@, seq![y.text()]), text::dec(rd), lower::NZ@, "\n"@ + Seq::<char>::empty());
    lemma_letters_10(Seq::<char>::empty());
    lemma_letters_11(text::dec(rd) + ("] = r; "@ + ("ctx->n = r >> 31; ctx->z = r == 0;"@ + (" }"@ + ("\n"@ + (Seq::<char>::empty()))))));
    lemma_letters_12(y.text() + (";"@ + (" ctx->r["@ + (text::dec(rd) + ("] = r; "@ + ("ctx->n = r >> 31; ctx->z = r == 0;"@ + (" }"@ + ("\n"@ + (Seq::<char>::empty())))))))));
    lemma_letters_13(text::dec(rs) + ("], r = "@ + (x.text() + (";"@ + (" ctx->c = "@ + (y.text() + (";"@ + (" ctx->r["@ + (text::dec(rd) + ("] = r; "@ + ("ctx->n = r >> 31; ctx->z = r == 0;"@ + (" }"@ + ("\n"@ + (Seq::<char>::empty()))))))))))))));
    reveal_strlit("\n");
    assert(text::fill("    { uint32_t m = ctx->r[{}], r = {};{} ctx->r[{}] = r; {} }"@, seq![text::dec(rs), x.text(), text::fill(" ctx->c = {};"@, seq![y.text()]), text::dec(rd), lower::NZ@]).push('\n') =~= text::fill("    { uint32_t m = ctx->r[{}], r = {};{} ctx->r[{}] = r; {} }"@, seq![text::dec(rs), x.text(), text::fill(" ctx->c = {};"@, seq![y.text()]), text::dec(rd), lower::NZ@]) + ("\n"@ + Seq::<char>::empty()));
    assert(shift_line(rs, x, y, rd).text() == text::fill("    { uint32_t m = ctx->r[{}], r = {};{} ctx->r[{}] = r; {} }"@, seq![text::dec(rs), x.text(), text::fill(" ctx->c = {};"@, seq![y.text()]), text::dec(rd), lower::NZ@]).push('\n'));
}

proof fn lemma_letters_14(rest: Seq<char>)
    ensures
        "; "@ + ("ctx->r["@ + (rest)) == ";"@ + (""@ + (" ctx->r["@ + (rest))),
{
    reveal_strlit("; ");
    reveal_strlit("ctx->r[");
    reveal_strlit(";");
    reveal_strlit("");
    reveal_strlit(" ctx->r[");
    assert("; "@ + ("ctx->r["@ + (rest)) =~= ";"@ + (""@ + (" ctx->r["@ + (rest))));
}

pub open spec fn keep_line(rs: nat, x: Expression, rd: nat) -> Program {
    Program::Then(
        Layout::First,
        Statement::Open,
        Box::new(Program::Then(
        Layout::Middle,
        Statement::Declare(Type::U32, Declared::More(Name::M, Expression::Register(rs), Box::new(Declared::One(Name::R, x)))),
        Box::new(Program::Then(
        Layout::Middle,
        Statement::Assign(Place::Register(rd), Expression::Local(Name::R)),
        Box::new(Program::Then(
        Layout::Middle,
        Statement::Assign(Place::Field(Field::N), Expression::Two(Operator::Right, Box::new(Expression::Local(Name::R)), Box::new(Expression::Int(31)))),
        Box::new(Program::Then(
        Layout::Middle,
        Statement::Assign(Place::Field(Field::Z), Expression::Two(Operator::Equal, Box::new(Expression::Local(Name::R)), Box::new(Expression::Int(0)))),
        Box::new(Program::Then(
        Layout::Last,
        Statement::Close,
        Box::new(Program::End),
    )),
    )),
    )),
    )),
    )),
    )
}

pub proof fn lemma_keep_line(rs: nat, x: Expression, rd: nat)
    requires
        x.grouped(),
    ensures
        keep_line(rs, x, rd).text() == text::fill("    { uint32_t m = ctx->r[{}], r = {};{} ctx->r[{}] = r; {} }"@, seq![text::dec(rs), x.text(), ""@, text::dec(rd), lower::NZ@]).push('\n'),
        keep_line(rs, x, rd).grouped(),
{
    reveal_with_fuel(Program::text, 7);
    reveal_with_fuel(Program::grouped, 7);
    lemma_statement_3(Seq::<char>::empty());
    lemma_statement_6("}\n"@ + (Seq::<char>::empty()));
    lemma_statement_7("ctx->z = r == 0; "@ + ("}\n"@ + (Seq::<char>::empty())));
    lemma_statement_12(rd, "ctx->n = r >> 31; "@ + ("ctx->z = r == 0; "@ + ("}\n"@ + (Seq::<char>::empty()))));
    lemma_statement_17(rs, x, "ctx->r["@ + (text::dec(rd) + ("] = r; "@ + ("ctx->n = r >> 31; "@ + ("ctx->z = r == 0; "@ + ("}\n"@ + (Seq::<char>::empty())))))));
    lemma_statement_9("uint32_t m = ctx->r["@ + (text::dec(rs) + ("], r = "@ + (x.text() + ("; "@ + ("ctx->r["@ + (text::dec(rd) + ("] = r; "@ + ("ctx->n = r >> 31; "@ + ("ctx->z = r == 0; "@ + ("}\n"@ + (Seq::<char>::empty()))))))))))));
    assert(lower::NZ@ == "ctx->n = r >> 31; ctx->z = r == 0;"@);
    assert(""@ == ""@);
    lemma_text_7(text::dec(rs), x.text(), ""@, text::dec(rd), lower::NZ@, "\n"@ + Seq::<char>::empty());
    lemma_letters_10(Seq::<char>::empty());
    lemma_letters_14(text::dec(rd) + ("] = r; "@ + ("ctx->n = r >> 31; ctx->z = r == 0;"@ + (" }"@ + ("\n"@ + (Seq::<char>::empty()))))));
    lemma_letters_13(text::dec(rs) + ("], r = "@ + (x.text() + (";"@ + (""@ + (" ctx->r["@ + (text::dec(rd) + ("] = r; "@ + ("ctx->n = r >> 31; ctx->z = r == 0;"@ + (" }"@ + ("\n"@ + (Seq::<char>::empty()))))))))))));
    reveal_strlit("\n");
    assert(text::fill("    { uint32_t m = ctx->r[{}], r = {};{} ctx->r[{}] = r; {} }"@, seq![text::dec(rs), x.text(), ""@, text::dec(rd), lower::NZ@]).push('\n') =~= text::fill("    { uint32_t m = ctx->r[{}], r = {};{} ctx->r[{}] = r; {} }"@, seq![text::dec(rs), x.text(), ""@, text::dec(rd), lower::NZ@]) + ("\n"@ + Seq::<char>::empty()));
    assert(keep_line(rs, x, rd).text() == text::fill("    { uint32_t m = ctx->r[{}], r = {};{} ctx->r[{}] = r; {} }"@, seq![text::dec(rs), x.text(), ""@, text::dec(rd), lower::NZ@]).push('\n'));
}

proof fn lemma_statement_18(rest: Seq<char>)
    ensures
        Layout::Middle.around(Statement::Assign(Place::Local(Name::R), Expression::Two(Operator::And, Box::new(Expression::Local(Name::A)), Box::new(Expression::Local(Name::B)))).text()) + rest == "r = a & b; "@ + (rest),
        Statement::Assign(Place::Local(Name::R), Expression::Two(Operator::And, Box::new(Expression::Local(Name::A)), Box::new(Expression::Local(Name::B)))).grouped(),
{
    reveal_strlit(" ");
    reveal_strlit(" & ");
    reveal_strlit(" = ");
    reveal_strlit(";");
    reveal_strlit("a");
    reveal_strlit("b");
    reveal_strlit("r");
    reveal_strlit("r = a & b; ");
    small_c::lemma_numbers();
    reveal(Statement::text);
    reveal(Statement::grouped);
    reveal_with_fuel(Expression::text, 3);
    reveal_with_fuel(Expression::grouped, 3);
    assert(Layout::Middle.around(Statement::Assign(Place::Local(Name::R), Expression::Two(Operator::And, Box::new(Expression::Local(Name::A)), Box::new(Expression::Local(Name::B)))).text()) + rest =~= "r = a & b; "@ + (rest));
}

proof fn lemma_statement_19(rd: nat, rs: nat, rest: Seq<char>)
    ensures
        Layout::Middle.around(Statement::Declare(Type::U32, Declared::More(Name::A, Expression::Register(rd), Box::new(Declared::More(Name::B, Expression::Register(rs), Box::new(Declared::Bare(Name::R)))))).text()) + rest == "uint32_t a = ctx->r["@ + (text::dec(rd) + ("], b = ctx->r["@ + (text::dec(rs) + ("], r; "@ + (rest))))),
        Statement::Declare(Type::U32, Declared::More(Name::A, Expression::Register(rd), Box::new(Declared::More(Name::B, Expression::Register(rs), Box::new(Declared::Bare(Name::R)))))).grouped(),
{
    reveal_strlit(" ");
    reveal_strlit(" = ");
    reveal_strlit(", ");
    reveal_strlit(";");
    reveal_strlit("]");
    reveal_strlit("], b = ctx->r[");
    reveal_strlit("], r; ");
    reveal_strlit("a");
    reveal_strlit("b");
    reveal_strlit("ctx->r[");
    reveal_strlit("r");
    reveal_strlit("uint32_t");
    reveal_strlit("uint32_t a = ctx->r[");
    small_c::lemma_numbers();
    reveal(Statement::text);
    reveal(Statement::grouped);
    reveal_with_fuel(Declared::text, 4);
    reveal_with_fuel(Declared::grouped, 4);
    reveal_with_fuel(Expression::text, 2);
    reveal_with_fuel(Expression::grouped, 2);
    assert(Layout::Middle.around(Statement::Declare(Type::U32, Declared::More(Name::A, Expression::Register(rd), Box::new(Declared::More(Name::B, Expression::Register(rs), Box::new(Declared::Bare(Name::R)))))).text()) + rest =~= "uint32_t a = ctx->r["@ + (text::dec(rd) + ("], b = ctx->r["@ + (text::dec(rs) + ("], r; "@ + (rest))))));
}

proof fn lemma_text_9(x0: Seq<char>, x1: Seq<char>, x2: Seq<char>, rest: Seq<char>)
    ensures
        text::fill("    { uint32_t a = ctx->r[{}], b = ctx->r[{}], r; {} }"@, seq![x0, x1, x2]) + rest == "    { uint32_t a = ctx->r["@ + (x0 + ("], b = ctx->r["@ + (x1 + ("], r; "@ + (x2 + (" }"@ + (rest))))))),
{
    reveal_strlit("    { uint32_t a = ctx->r[{}], b = ctx->r[{}], r; {} }");
    reveal_strlit("{}");
    reveal_strlit("    { uint32_t a = ctx->r[");
    reveal_strlit("], b = ctx->r[");
    reveal_strlit("], r; ");
    reveal_strlit(" }");
    assert("    { uint32_t a = ctx->r[{}], b = ctx->r[{}], r; {} }"@ =~= "    { uint32_t a = ctx->r["@ + "{}"@ + ("], b = ctx->r["@ + "{}"@ + ("], r; "@ + "{}"@ + (" }"@))));
    let args_0 = seq![x0, x1, x2];
    let args_1 = seq![x1, x2];
    let args_2 = seq![x2];
    let args_3 = Seq::<Seq<char>>::empty();
    assert(args_0.skip(1) =~= args_1);
    assert(args_1.skip(1) =~= args_2);
    assert(args_2.skip(1) =~= args_3);
    lemma_hole("    { uint32_t a = ctx->r["@, "], b = ctx->r["@ + "{}"@ + ("], r; "@ + "{}"@ + (" }"@)), args_0);
    lemma_hole("], b = ctx->r["@, "], r; "@ + "{}"@ + (" }"@), args_1);
    lemma_hole("], r; "@, " }"@, args_2);
    lemma_plain(" }"@);
    assert(text::fill("    { uint32_t a = ctx->r[{}], b = ctx->r[{}], r; {} }"@, seq![x0, x1, x2]) + rest =~= "    { uint32_t a = ctx->r["@ + (x0 + ("], b = ctx->r["@ + (x1 + ("], r; "@ + (x2 + (" }"@ + (rest))))))));
}

proof fn lemma_text_10(x0: Seq<char>, x1: Seq<char>, rest: Seq<char>)
    ensures
        text::fill("r = a & b; ctx->r[{}] = r; {}"@, seq![x0, x1]) + rest == "r = a & b; ctx->r["@ + (x0 + ("] = r; "@ + (x1 + (rest)))),
{
    reveal_strlit("r = a & b; ctx->r[{}] = r; {}");
    reveal_strlit("{}");
    reveal_strlit("r = a & b; ctx->r[");
    reveal_strlit("] = r; ");
    reveal_strlit("");
    assert("r = a & b; ctx->r[{}] = r; {}"@ =~= "r = a & b; ctx->r["@ + "{}"@ + ("] = r; "@ + "{}"@ + (""@)));
    let args_0 = seq![x0, x1];
    let args_1 = seq![x1];
    let args_2 = Seq::<Seq<char>>::empty();
    assert(args_0.skip(1) =~= args_1);
    assert(args_1.skip(1) =~= args_2);
    lemma_hole("r = a & b; ctx->r["@, "] = r; "@ + "{}"@ + (""@), args_0);
    lemma_hole("] = r; "@, ""@, args_1);
    lemma_plain(""@);
    assert(text::fill("r = a & b; ctx->r[{}] = r; {}"@, seq![x0, x1]) + rest =~= "r = a & b; ctx->r["@ + (x0 + ("] = r; "@ + (x1 + (rest)))));
}

proof fn lemma_letters_15(rest: Seq<char>)
    ensures
        "], r; "@ + ("r = a & b; "@ + ("ctx->r["@ + (rest))) == "], r; "@ + ("r = a & b; ctx->r["@ + (rest)),
{
    reveal_strlit("], r; ");
    reveal_strlit("r = a & b; ");
    reveal_strlit("ctx->r[");
    reveal_strlit("r = a & b; ctx->r[");
    assert("], r; "@ + ("r = a & b; "@ + ("ctx->r["@ + (rest))) =~= "], r; "@ + ("r = a & b; ctx->r["@ + (rest)));
}

pub open spec fn alu_and_line(rd: nat, rs: nat) -> Program {
    Program::Then(
        Layout::First,
        Statement::Open,
        Box::new(Program::Then(
        Layout::Middle,
        Statement::Declare(Type::U32, Declared::More(Name::A, Expression::Register(rd), Box::new(Declared::More(Name::B, Expression::Register(rs), Box::new(Declared::Bare(Name::R)))))),
        Box::new(Program::Then(
        Layout::Middle,
        Statement::Assign(Place::Local(Name::R), Expression::Two(Operator::And, Box::new(Expression::Local(Name::A)), Box::new(Expression::Local(Name::B)))),
        Box::new(Program::Then(
        Layout::Middle,
        Statement::Assign(Place::Register(rd), Expression::Local(Name::R)),
        Box::new(Program::Then(
        Layout::Middle,
        Statement::Assign(Place::Field(Field::N), Expression::Two(Operator::Right, Box::new(Expression::Local(Name::R)), Box::new(Expression::Int(31)))),
        Box::new(Program::Then(
        Layout::Middle,
        Statement::Assign(Place::Field(Field::Z), Expression::Two(Operator::Equal, Box::new(Expression::Local(Name::R)), Box::new(Expression::Int(0)))),
        Box::new(Program::Then(
        Layout::Last,
        Statement::Close,
        Box::new(Program::End),
    )),
    )),
    )),
    )),
    )),
    )),
    )
}

pub proof fn lemma_alu_and_line(rd: nat, rs: nat)
    ensures
        alu_and_line(rd, rs).text() == text::fill("    { uint32_t a = ctx->r[{}], b = ctx->r[{}], r; {} }"@, seq![text::dec(rd), text::dec(rs), text::fill("r = a & b; ctx->r[{}] = r; {}"@, seq![text::dec(rd), lower::NZ@])]).push('\n'),
        alu_and_line(rd, rs).grouped(),
{
    reveal_with_fuel(Program::text, 8);
    reveal_with_fuel(Program::grouped, 8);
    lemma_statement_3(Seq::<char>::empty());
    lemma_statement_6("}\n"@ + (Seq::<char>::empty()));
    lemma_statement_7("ctx->z = r == 0; "@ + ("}\n"@ + (Seq::<char>::empty())));
    lemma_statement_12(rd, "ctx->n = r >> 31; "@ + ("ctx->z = r == 0; "@ + ("}\n"@ + (Seq::<char>::empty()))));
    lemma_statement_18("ctx->r["@ + (text::dec(rd) + ("] = r; "@ + ("ctx->n = r >> 31; "@ + ("ctx->z = r == 0; "@ + ("}\n"@ + (Seq::<char>::empty())))))));
    lemma_statement_19(rd, rs, "r = a & b; "@ + ("ctx->r["@ + (text::dec(rd) + ("] = r; "@ + ("ctx->n = r >> 31; "@ + ("ctx->z = r == 0; "@ + ("}\n"@ + (Seq::<char>::empty()))))))));
    lemma_statement_9("uint32_t a = ctx->r["@ + (text::dec(rd) + ("], b = ctx->r["@ + (text::dec(rs) + ("], r; "@ + ("r = a & b; "@ + ("ctx->r["@ + (text::dec(rd) + ("] = r; "@ + ("ctx->n = r >> 31; "@ + ("ctx->z = r == 0; "@ + ("}\n"@ + (Seq::<char>::empty())))))))))))));
    assert(lower::NZ@ == "ctx->n = r >> 31; ctx->z = r == 0;"@);
    lemma_text_10(text::dec(rd), lower::NZ@, " }"@ + ("\n"@ + Seq::<char>::empty()));
    lemma_text_9(text::dec(rd), text::dec(rs), text::fill("r = a & b; ctx->r[{}] = r; {}"@, seq![text::dec(rd), lower::NZ@]), "\n"@ + Seq::<char>::empty());
    lemma_letters_10(Seq::<char>::empty());
    lemma_letters_15(text::dec(rd) + ("] = r; "@ + ("ctx->n = r >> 31; ctx->z = r == 0;"@ + (" }"@ + ("\n"@ + (Seq::<char>::empty()))))));
    lemma_letters_3(text::dec(rd) + ("], b = ctx->r["@ + (text::dec(rs) + ("], r; "@ + ("r = a & b; ctx->r["@ + (text::dec(rd) + ("] = r; "@ + ("ctx->n = r >> 31; ctx->z = r == 0;"@ + (" }"@ + ("\n"@ + (Seq::<char>::empty())))))))))));
    reveal_strlit("\n");
    assert(text::fill("    { uint32_t a = ctx->r[{}], b = ctx->r[{}], r; {} }"@, seq![text::dec(rd), text::dec(rs), text::fill("r = a & b; ctx->r[{}] = r; {}"@, seq![text::dec(rd), lower::NZ@])]).push('\n') =~= text::fill("    { uint32_t a = ctx->r[{}], b = ctx->r[{}], r; {} }"@, seq![text::dec(rd), text::dec(rs), text::fill("r = a & b; ctx->r[{}] = r; {}"@, seq![text::dec(rd), lower::NZ@])]) + ("\n"@ + Seq::<char>::empty()));
    assert(alu_and_line(rd, rs).text() == text::fill("    { uint32_t a = ctx->r[{}], b = ctx->r[{}], r; {} }"@, seq![text::dec(rd), text::dec(rs), text::fill("r = a & b; ctx->r[{}] = r; {}"@, seq![text::dec(rd), lower::NZ@])]).push('\n'));
}

proof fn lemma_statement_20(rest: Seq<char>)
    ensures
        Layout::Middle.around(Statement::Assign(Place::Local(Name::R), Expression::Two(Operator::Xor, Box::new(Expression::Local(Name::A)), Box::new(Expression::Local(Name::B)))).text()) + rest == "r = a ^ b; "@ + (rest),
        Statement::Assign(Place::Local(Name::R), Expression::Two(Operator::Xor, Box::new(Expression::Local(Name::A)), Box::new(Expression::Local(Name::B)))).grouped(),
{
    reveal_strlit(" ");
    reveal_strlit(" = ");
    reveal_strlit(" ^ ");
    reveal_strlit(";");
    reveal_strlit("a");
    reveal_strlit("b");
    reveal_strlit("r");
    reveal_strlit("r = a ^ b; ");
    small_c::lemma_numbers();
    reveal(Statement::text);
    reveal(Statement::grouped);
    reveal_with_fuel(Expression::text, 3);
    reveal_with_fuel(Expression::grouped, 3);
    assert(Layout::Middle.around(Statement::Assign(Place::Local(Name::R), Expression::Two(Operator::Xor, Box::new(Expression::Local(Name::A)), Box::new(Expression::Local(Name::B)))).text()) + rest =~= "r = a ^ b; "@ + (rest));
}

proof fn lemma_text_11(x0: Seq<char>, x1: Seq<char>, rest: Seq<char>)
    ensures
        text::fill("r = a ^ b; ctx->r[{}] = r; {}"@, seq![x0, x1]) + rest == "r = a ^ b; ctx->r["@ + (x0 + ("] = r; "@ + (x1 + (rest)))),
{
    reveal_strlit("r = a ^ b; ctx->r[{}] = r; {}");
    reveal_strlit("{}");
    reveal_strlit("r = a ^ b; ctx->r[");
    reveal_strlit("] = r; ");
    reveal_strlit("");
    assert("r = a ^ b; ctx->r[{}] = r; {}"@ =~= "r = a ^ b; ctx->r["@ + "{}"@ + ("] = r; "@ + "{}"@ + (""@)));
    let args_0 = seq![x0, x1];
    let args_1 = seq![x1];
    let args_2 = Seq::<Seq<char>>::empty();
    assert(args_0.skip(1) =~= args_1);
    assert(args_1.skip(1) =~= args_2);
    lemma_hole("r = a ^ b; ctx->r["@, "] = r; "@ + "{}"@ + (""@), args_0);
    lemma_hole("] = r; "@, ""@, args_1);
    lemma_plain(""@);
    assert(text::fill("r = a ^ b; ctx->r[{}] = r; {}"@, seq![x0, x1]) + rest =~= "r = a ^ b; ctx->r["@ + (x0 + ("] = r; "@ + (x1 + (rest)))));
}

proof fn lemma_letters_16(rest: Seq<char>)
    ensures
        "], r; "@ + ("r = a ^ b; "@ + ("ctx->r["@ + (rest))) == "], r; "@ + ("r = a ^ b; ctx->r["@ + (rest)),
{
    reveal_strlit("], r; ");
    reveal_strlit("r = a ^ b; ");
    reveal_strlit("ctx->r[");
    reveal_strlit("r = a ^ b; ctx->r[");
    assert("], r; "@ + ("r = a ^ b; "@ + ("ctx->r["@ + (rest))) =~= "], r; "@ + ("r = a ^ b; ctx->r["@ + (rest)));
}

pub open spec fn alu_eor_line(rd: nat, rs: nat) -> Program {
    Program::Then(
        Layout::First,
        Statement::Open,
        Box::new(Program::Then(
        Layout::Middle,
        Statement::Declare(Type::U32, Declared::More(Name::A, Expression::Register(rd), Box::new(Declared::More(Name::B, Expression::Register(rs), Box::new(Declared::Bare(Name::R)))))),
        Box::new(Program::Then(
        Layout::Middle,
        Statement::Assign(Place::Local(Name::R), Expression::Two(Operator::Xor, Box::new(Expression::Local(Name::A)), Box::new(Expression::Local(Name::B)))),
        Box::new(Program::Then(
        Layout::Middle,
        Statement::Assign(Place::Register(rd), Expression::Local(Name::R)),
        Box::new(Program::Then(
        Layout::Middle,
        Statement::Assign(Place::Field(Field::N), Expression::Two(Operator::Right, Box::new(Expression::Local(Name::R)), Box::new(Expression::Int(31)))),
        Box::new(Program::Then(
        Layout::Middle,
        Statement::Assign(Place::Field(Field::Z), Expression::Two(Operator::Equal, Box::new(Expression::Local(Name::R)), Box::new(Expression::Int(0)))),
        Box::new(Program::Then(
        Layout::Last,
        Statement::Close,
        Box::new(Program::End),
    )),
    )),
    )),
    )),
    )),
    )),
    )
}

pub proof fn lemma_alu_eor_line(rd: nat, rs: nat)
    ensures
        alu_eor_line(rd, rs).text() == text::fill("    { uint32_t a = ctx->r[{}], b = ctx->r[{}], r; {} }"@, seq![text::dec(rd), text::dec(rs), text::fill("r = a ^ b; ctx->r[{}] = r; {}"@, seq![text::dec(rd), lower::NZ@])]).push('\n'),
        alu_eor_line(rd, rs).grouped(),
{
    reveal_with_fuel(Program::text, 8);
    reveal_with_fuel(Program::grouped, 8);
    lemma_statement_3(Seq::<char>::empty());
    lemma_statement_6("}\n"@ + (Seq::<char>::empty()));
    lemma_statement_7("ctx->z = r == 0; "@ + ("}\n"@ + (Seq::<char>::empty())));
    lemma_statement_12(rd, "ctx->n = r >> 31; "@ + ("ctx->z = r == 0; "@ + ("}\n"@ + (Seq::<char>::empty()))));
    lemma_statement_20("ctx->r["@ + (text::dec(rd) + ("] = r; "@ + ("ctx->n = r >> 31; "@ + ("ctx->z = r == 0; "@ + ("}\n"@ + (Seq::<char>::empty())))))));
    lemma_statement_19(rd, rs, "r = a ^ b; "@ + ("ctx->r["@ + (text::dec(rd) + ("] = r; "@ + ("ctx->n = r >> 31; "@ + ("ctx->z = r == 0; "@ + ("}\n"@ + (Seq::<char>::empty()))))))));
    lemma_statement_9("uint32_t a = ctx->r["@ + (text::dec(rd) + ("], b = ctx->r["@ + (text::dec(rs) + ("], r; "@ + ("r = a ^ b; "@ + ("ctx->r["@ + (text::dec(rd) + ("] = r; "@ + ("ctx->n = r >> 31; "@ + ("ctx->z = r == 0; "@ + ("}\n"@ + (Seq::<char>::empty())))))))))))));
    assert(lower::NZ@ == "ctx->n = r >> 31; ctx->z = r == 0;"@);
    lemma_text_11(text::dec(rd), lower::NZ@, " }"@ + ("\n"@ + Seq::<char>::empty()));
    lemma_text_9(text::dec(rd), text::dec(rs), text::fill("r = a ^ b; ctx->r[{}] = r; {}"@, seq![text::dec(rd), lower::NZ@]), "\n"@ + Seq::<char>::empty());
    lemma_letters_10(Seq::<char>::empty());
    lemma_letters_16(text::dec(rd) + ("] = r; "@ + ("ctx->n = r >> 31; ctx->z = r == 0;"@ + (" }"@ + ("\n"@ + (Seq::<char>::empty()))))));
    lemma_letters_3(text::dec(rd) + ("], b = ctx->r["@ + (text::dec(rs) + ("], r; "@ + ("r = a ^ b; ctx->r["@ + (text::dec(rd) + ("] = r; "@ + ("ctx->n = r >> 31; ctx->z = r == 0;"@ + (" }"@ + ("\n"@ + (Seq::<char>::empty())))))))))));
    reveal_strlit("\n");
    assert(text::fill("    { uint32_t a = ctx->r[{}], b = ctx->r[{}], r; {} }"@, seq![text::dec(rd), text::dec(rs), text::fill("r = a ^ b; ctx->r[{}] = r; {}"@, seq![text::dec(rd), lower::NZ@])]).push('\n') =~= text::fill("    { uint32_t a = ctx->r[{}], b = ctx->r[{}], r; {} }"@, seq![text::dec(rd), text::dec(rs), text::fill("r = a ^ b; ctx->r[{}] = r; {}"@, seq![text::dec(rd), lower::NZ@])]) + ("\n"@ + Seq::<char>::empty()));
    assert(alu_eor_line(rd, rs).text() == text::fill("    { uint32_t a = ctx->r[{}], b = ctx->r[{}], r; {} }"@, seq![text::dec(rd), text::dec(rs), text::fill("r = a ^ b; ctx->r[{}] = r; {}"@, seq![text::dec(rd), lower::NZ@])]).push('\n'));
}

proof fn lemma_statement_21(rest: Seq<char>)
    ensures
        Layout::Middle.around(Statement::Assign(Place::Local(Name::R), Expression::Two(Operator::Or, Box::new(Expression::Local(Name::A)), Box::new(Expression::Local(Name::B)))).text()) + rest == "r = a | b; "@ + (rest),
        Statement::Assign(Place::Local(Name::R), Expression::Two(Operator::Or, Box::new(Expression::Local(Name::A)), Box::new(Expression::Local(Name::B)))).grouped(),
{
    reveal_strlit(" ");
    reveal_strlit(" = ");
    reveal_strlit(" | ");
    reveal_strlit(";");
    reveal_strlit("a");
    reveal_strlit("b");
    reveal_strlit("r");
    reveal_strlit("r = a | b; ");
    small_c::lemma_numbers();
    reveal(Statement::text);
    reveal(Statement::grouped);
    reveal_with_fuel(Expression::text, 3);
    reveal_with_fuel(Expression::grouped, 3);
    assert(Layout::Middle.around(Statement::Assign(Place::Local(Name::R), Expression::Two(Operator::Or, Box::new(Expression::Local(Name::A)), Box::new(Expression::Local(Name::B)))).text()) + rest =~= "r = a | b; "@ + (rest));
}

proof fn lemma_text_12(x0: Seq<char>, x1: Seq<char>, rest: Seq<char>)
    ensures
        text::fill("r = a | b; ctx->r[{}] = r; {}"@, seq![x0, x1]) + rest == "r = a | b; ctx->r["@ + (x0 + ("] = r; "@ + (x1 + (rest)))),
{
    reveal_strlit("r = a | b; ctx->r[{}] = r; {}");
    reveal_strlit("{}");
    reveal_strlit("r = a | b; ctx->r[");
    reveal_strlit("] = r; ");
    reveal_strlit("");
    assert("r = a | b; ctx->r[{}] = r; {}"@ =~= "r = a | b; ctx->r["@ + "{}"@ + ("] = r; "@ + "{}"@ + (""@)));
    let args_0 = seq![x0, x1];
    let args_1 = seq![x1];
    let args_2 = Seq::<Seq<char>>::empty();
    assert(args_0.skip(1) =~= args_1);
    assert(args_1.skip(1) =~= args_2);
    lemma_hole("r = a | b; ctx->r["@, "] = r; "@ + "{}"@ + (""@), args_0);
    lemma_hole("] = r; "@, ""@, args_1);
    lemma_plain(""@);
    assert(text::fill("r = a | b; ctx->r[{}] = r; {}"@, seq![x0, x1]) + rest =~= "r = a | b; ctx->r["@ + (x0 + ("] = r; "@ + (x1 + (rest)))));
}

proof fn lemma_letters_17(rest: Seq<char>)
    ensures
        "], r; "@ + ("r = a | b; "@ + ("ctx->r["@ + (rest))) == "], r; "@ + ("r = a | b; ctx->r["@ + (rest)),
{
    reveal_strlit("], r; ");
    reveal_strlit("r = a | b; ");
    reveal_strlit("ctx->r[");
    reveal_strlit("r = a | b; ctx->r[");
    assert("], r; "@ + ("r = a | b; "@ + ("ctx->r["@ + (rest))) =~= "], r; "@ + ("r = a | b; ctx->r["@ + (rest)));
}

pub open spec fn alu_orr_line(rd: nat, rs: nat) -> Program {
    Program::Then(
        Layout::First,
        Statement::Open,
        Box::new(Program::Then(
        Layout::Middle,
        Statement::Declare(Type::U32, Declared::More(Name::A, Expression::Register(rd), Box::new(Declared::More(Name::B, Expression::Register(rs), Box::new(Declared::Bare(Name::R)))))),
        Box::new(Program::Then(
        Layout::Middle,
        Statement::Assign(Place::Local(Name::R), Expression::Two(Operator::Or, Box::new(Expression::Local(Name::A)), Box::new(Expression::Local(Name::B)))),
        Box::new(Program::Then(
        Layout::Middle,
        Statement::Assign(Place::Register(rd), Expression::Local(Name::R)),
        Box::new(Program::Then(
        Layout::Middle,
        Statement::Assign(Place::Field(Field::N), Expression::Two(Operator::Right, Box::new(Expression::Local(Name::R)), Box::new(Expression::Int(31)))),
        Box::new(Program::Then(
        Layout::Middle,
        Statement::Assign(Place::Field(Field::Z), Expression::Two(Operator::Equal, Box::new(Expression::Local(Name::R)), Box::new(Expression::Int(0)))),
        Box::new(Program::Then(
        Layout::Last,
        Statement::Close,
        Box::new(Program::End),
    )),
    )),
    )),
    )),
    )),
    )),
    )
}

pub proof fn lemma_alu_orr_line(rd: nat, rs: nat)
    ensures
        alu_orr_line(rd, rs).text() == text::fill("    { uint32_t a = ctx->r[{}], b = ctx->r[{}], r; {} }"@, seq![text::dec(rd), text::dec(rs), text::fill("r = a | b; ctx->r[{}] = r; {}"@, seq![text::dec(rd), lower::NZ@])]).push('\n'),
        alu_orr_line(rd, rs).grouped(),
{
    reveal_with_fuel(Program::text, 8);
    reveal_with_fuel(Program::grouped, 8);
    lemma_statement_3(Seq::<char>::empty());
    lemma_statement_6("}\n"@ + (Seq::<char>::empty()));
    lemma_statement_7("ctx->z = r == 0; "@ + ("}\n"@ + (Seq::<char>::empty())));
    lemma_statement_12(rd, "ctx->n = r >> 31; "@ + ("ctx->z = r == 0; "@ + ("}\n"@ + (Seq::<char>::empty()))));
    lemma_statement_21("ctx->r["@ + (text::dec(rd) + ("] = r; "@ + ("ctx->n = r >> 31; "@ + ("ctx->z = r == 0; "@ + ("}\n"@ + (Seq::<char>::empty())))))));
    lemma_statement_19(rd, rs, "r = a | b; "@ + ("ctx->r["@ + (text::dec(rd) + ("] = r; "@ + ("ctx->n = r >> 31; "@ + ("ctx->z = r == 0; "@ + ("}\n"@ + (Seq::<char>::empty()))))))));
    lemma_statement_9("uint32_t a = ctx->r["@ + (text::dec(rd) + ("], b = ctx->r["@ + (text::dec(rs) + ("], r; "@ + ("r = a | b; "@ + ("ctx->r["@ + (text::dec(rd) + ("] = r; "@ + ("ctx->n = r >> 31; "@ + ("ctx->z = r == 0; "@ + ("}\n"@ + (Seq::<char>::empty())))))))))))));
    assert(lower::NZ@ == "ctx->n = r >> 31; ctx->z = r == 0;"@);
    lemma_text_12(text::dec(rd), lower::NZ@, " }"@ + ("\n"@ + Seq::<char>::empty()));
    lemma_text_9(text::dec(rd), text::dec(rs), text::fill("r = a | b; ctx->r[{}] = r; {}"@, seq![text::dec(rd), lower::NZ@]), "\n"@ + Seq::<char>::empty());
    lemma_letters_10(Seq::<char>::empty());
    lemma_letters_17(text::dec(rd) + ("] = r; "@ + ("ctx->n = r >> 31; ctx->z = r == 0;"@ + (" }"@ + ("\n"@ + (Seq::<char>::empty()))))));
    lemma_letters_3(text::dec(rd) + ("], b = ctx->r["@ + (text::dec(rs) + ("], r; "@ + ("r = a | b; ctx->r["@ + (text::dec(rd) + ("] = r; "@ + ("ctx->n = r >> 31; ctx->z = r == 0;"@ + (" }"@ + ("\n"@ + (Seq::<char>::empty())))))))))));
    reveal_strlit("\n");
    assert(text::fill("    { uint32_t a = ctx->r[{}], b = ctx->r[{}], r; {} }"@, seq![text::dec(rd), text::dec(rs), text::fill("r = a | b; ctx->r[{}] = r; {}"@, seq![text::dec(rd), lower::NZ@])]).push('\n') =~= text::fill("    { uint32_t a = ctx->r[{}], b = ctx->r[{}], r; {} }"@, seq![text::dec(rd), text::dec(rs), text::fill("r = a | b; ctx->r[{}] = r; {}"@, seq![text::dec(rd), lower::NZ@])]) + ("\n"@ + Seq::<char>::empty()));
    assert(alu_orr_line(rd, rs).text() == text::fill("    { uint32_t a = ctx->r[{}], b = ctx->r[{}], r; {} }"@, seq![text::dec(rd), text::dec(rs), text::fill("r = a | b; ctx->r[{}] = r; {}"@, seq![text::dec(rd), lower::NZ@])]).push('\n'));
}

proof fn lemma_statement_22(rest: Seq<char>)
    ensures
        Layout::Middle.around(Statement::Assign(Place::Local(Name::R), Expression::Two(Operator::Times, Box::new(Expression::Local(Name::A)), Box::new(Expression::Local(Name::B)))).text()) + rest == "r = a * b; "@ + (rest),
        Statement::Assign(Place::Local(Name::R), Expression::Two(Operator::Times, Box::new(Expression::Local(Name::A)), Box::new(Expression::Local(Name::B)))).grouped(),
{
    reveal_strlit(" ");
    reveal_strlit(" * ");
    reveal_strlit(" = ");
    reveal_strlit(";");
    reveal_strlit("a");
    reveal_strlit("b");
    reveal_strlit("r");
    reveal_strlit("r = a * b; ");
    small_c::lemma_numbers();
    reveal(Statement::text);
    reveal(Statement::grouped);
    reveal_with_fuel(Expression::text, 3);
    reveal_with_fuel(Expression::grouped, 3);
    assert(Layout::Middle.around(Statement::Assign(Place::Local(Name::R), Expression::Two(Operator::Times, Box::new(Expression::Local(Name::A)), Box::new(Expression::Local(Name::B)))).text()) + rest =~= "r = a * b; "@ + (rest));
}

proof fn lemma_text_13(x0: Seq<char>, x1: Seq<char>, rest: Seq<char>)
    ensures
        text::fill("r = a * b; ctx->r[{}] = r; {}"@, seq![x0, x1]) + rest == "r = a * b; ctx->r["@ + (x0 + ("] = r; "@ + (x1 + (rest)))),
{
    reveal_strlit("r = a * b; ctx->r[{}] = r; {}");
    reveal_strlit("{}");
    reveal_strlit("r = a * b; ctx->r[");
    reveal_strlit("] = r; ");
    reveal_strlit("");
    assert("r = a * b; ctx->r[{}] = r; {}"@ =~= "r = a * b; ctx->r["@ + "{}"@ + ("] = r; "@ + "{}"@ + (""@)));
    let args_0 = seq![x0, x1];
    let args_1 = seq![x1];
    let args_2 = Seq::<Seq<char>>::empty();
    assert(args_0.skip(1) =~= args_1);
    assert(args_1.skip(1) =~= args_2);
    lemma_hole("r = a * b; ctx->r["@, "] = r; "@ + "{}"@ + (""@), args_0);
    lemma_hole("] = r; "@, ""@, args_1);
    lemma_plain(""@);
    assert(text::fill("r = a * b; ctx->r[{}] = r; {}"@, seq![x0, x1]) + rest =~= "r = a * b; ctx->r["@ + (x0 + ("] = r; "@ + (x1 + (rest)))));
}

proof fn lemma_letters_18(rest: Seq<char>)
    ensures
        "], r; "@ + ("r = a * b; "@ + ("ctx->r["@ + (rest))) == "], r; "@ + ("r = a * b; ctx->r["@ + (rest)),
{
    reveal_strlit("], r; ");
    reveal_strlit("r = a * b; ");
    reveal_strlit("ctx->r[");
    reveal_strlit("r = a * b; ctx->r[");
    assert("], r; "@ + ("r = a * b; "@ + ("ctx->r["@ + (rest))) =~= "], r; "@ + ("r = a * b; ctx->r["@ + (rest)));
}

pub open spec fn alu_mul_line(rd: nat, rs: nat) -> Program {
    Program::Then(
        Layout::First,
        Statement::Open,
        Box::new(Program::Then(
        Layout::Middle,
        Statement::Declare(Type::U32, Declared::More(Name::A, Expression::Register(rd), Box::new(Declared::More(Name::B, Expression::Register(rs), Box::new(Declared::Bare(Name::R)))))),
        Box::new(Program::Then(
        Layout::Middle,
        Statement::Assign(Place::Local(Name::R), Expression::Two(Operator::Times, Box::new(Expression::Local(Name::A)), Box::new(Expression::Local(Name::B)))),
        Box::new(Program::Then(
        Layout::Middle,
        Statement::Assign(Place::Register(rd), Expression::Local(Name::R)),
        Box::new(Program::Then(
        Layout::Middle,
        Statement::Assign(Place::Field(Field::N), Expression::Two(Operator::Right, Box::new(Expression::Local(Name::R)), Box::new(Expression::Int(31)))),
        Box::new(Program::Then(
        Layout::Middle,
        Statement::Assign(Place::Field(Field::Z), Expression::Two(Operator::Equal, Box::new(Expression::Local(Name::R)), Box::new(Expression::Int(0)))),
        Box::new(Program::Then(
        Layout::Last,
        Statement::Close,
        Box::new(Program::End),
    )),
    )),
    )),
    )),
    )),
    )),
    )
}

pub proof fn lemma_alu_mul_line(rd: nat, rs: nat)
    ensures
        alu_mul_line(rd, rs).text() == text::fill("    { uint32_t a = ctx->r[{}], b = ctx->r[{}], r; {} }"@, seq![text::dec(rd), text::dec(rs), text::fill("r = a * b; ctx->r[{}] = r; {}"@, seq![text::dec(rd), lower::NZ@])]).push('\n'),
        alu_mul_line(rd, rs).grouped(),
{
    reveal_with_fuel(Program::text, 8);
    reveal_with_fuel(Program::grouped, 8);
    lemma_statement_3(Seq::<char>::empty());
    lemma_statement_6("}\n"@ + (Seq::<char>::empty()));
    lemma_statement_7("ctx->z = r == 0; "@ + ("}\n"@ + (Seq::<char>::empty())));
    lemma_statement_12(rd, "ctx->n = r >> 31; "@ + ("ctx->z = r == 0; "@ + ("}\n"@ + (Seq::<char>::empty()))));
    lemma_statement_22("ctx->r["@ + (text::dec(rd) + ("] = r; "@ + ("ctx->n = r >> 31; "@ + ("ctx->z = r == 0; "@ + ("}\n"@ + (Seq::<char>::empty())))))));
    lemma_statement_19(rd, rs, "r = a * b; "@ + ("ctx->r["@ + (text::dec(rd) + ("] = r; "@ + ("ctx->n = r >> 31; "@ + ("ctx->z = r == 0; "@ + ("}\n"@ + (Seq::<char>::empty()))))))));
    lemma_statement_9("uint32_t a = ctx->r["@ + (text::dec(rd) + ("], b = ctx->r["@ + (text::dec(rs) + ("], r; "@ + ("r = a * b; "@ + ("ctx->r["@ + (text::dec(rd) + ("] = r; "@ + ("ctx->n = r >> 31; "@ + ("ctx->z = r == 0; "@ + ("}\n"@ + (Seq::<char>::empty())))))))))))));
    assert(lower::NZ@ == "ctx->n = r >> 31; ctx->z = r == 0;"@);
    lemma_text_13(text::dec(rd), lower::NZ@, " }"@ + ("\n"@ + Seq::<char>::empty()));
    lemma_text_9(text::dec(rd), text::dec(rs), text::fill("r = a * b; ctx->r[{}] = r; {}"@, seq![text::dec(rd), lower::NZ@]), "\n"@ + Seq::<char>::empty());
    lemma_letters_10(Seq::<char>::empty());
    lemma_letters_18(text::dec(rd) + ("] = r; "@ + ("ctx->n = r >> 31; ctx->z = r == 0;"@ + (" }"@ + ("\n"@ + (Seq::<char>::empty()))))));
    lemma_letters_3(text::dec(rd) + ("], b = ctx->r["@ + (text::dec(rs) + ("], r; "@ + ("r = a * b; ctx->r["@ + (text::dec(rd) + ("] = r; "@ + ("ctx->n = r >> 31; ctx->z = r == 0;"@ + (" }"@ + ("\n"@ + (Seq::<char>::empty())))))))))));
    reveal_strlit("\n");
    assert(text::fill("    { uint32_t a = ctx->r[{}], b = ctx->r[{}], r; {} }"@, seq![text::dec(rd), text::dec(rs), text::fill("r = a * b; ctx->r[{}] = r; {}"@, seq![text::dec(rd), lower::NZ@])]).push('\n') =~= text::fill("    { uint32_t a = ctx->r[{}], b = ctx->r[{}], r; {} }"@, seq![text::dec(rd), text::dec(rs), text::fill("r = a * b; ctx->r[{}] = r; {}"@, seq![text::dec(rd), lower::NZ@])]) + ("\n"@ + Seq::<char>::empty()));
    assert(alu_mul_line(rd, rs).text() == text::fill("    { uint32_t a = ctx->r[{}], b = ctx->r[{}], r; {} }"@, seq![text::dec(rd), text::dec(rs), text::fill("r = a * b; ctx->r[{}] = r; {}"@, seq![text::dec(rd), lower::NZ@])]).push('\n'));
}

proof fn lemma_statement_23(rest: Seq<char>)
    ensures
        Layout::Middle.around(Statement::Assign(Place::Local(Name::R), Expression::Two(Operator::And, Box::new(Expression::Local(Name::A)), Box::new(Expression::Flip(Box::new(Expression::Local(Name::B)))))).text()) + rest == "r = a & ~b; "@ + (rest),
        Statement::Assign(Place::Local(Name::R), Expression::Two(Operator::And, Box::new(Expression::Local(Name::A)), Box::new(Expression::Flip(Box::new(Expression::Local(Name::B)))))).grouped(),
{
    reveal_strlit(" ");
    reveal_strlit(" & ");
    reveal_strlit(" = ");
    reveal_strlit(";");
    reveal_strlit("a");
    reveal_strlit("b");
    reveal_strlit("r");
    reveal_strlit("r = a & ~b; ");
    reveal_strlit("~");
    small_c::lemma_numbers();
    reveal(Statement::text);
    reveal(Statement::grouped);
    reveal_with_fuel(Expression::text, 4);
    reveal_with_fuel(Expression::grouped, 4);
    assert(Layout::Middle.around(Statement::Assign(Place::Local(Name::R), Expression::Two(Operator::And, Box::new(Expression::Local(Name::A)), Box::new(Expression::Flip(Box::new(Expression::Local(Name::B)))))).text()) + rest =~= "r = a & ~b; "@ + (rest));
}

proof fn lemma_text_14(x0: Seq<char>, x1: Seq<char>, rest: Seq<char>)
    ensures
        text::fill("r = a & ~b; ctx->r[{}] = r; {}"@, seq![x0, x1]) + rest == "r = a & ~b; ctx->r["@ + (x0 + ("] = r; "@ + (x1 + (rest)))),
{
    reveal_strlit("r = a & ~b; ctx->r[{}] = r; {}");
    reveal_strlit("{}");
    reveal_strlit("r = a & ~b; ctx->r[");
    reveal_strlit("] = r; ");
    reveal_strlit("");
    assert("r = a & ~b; ctx->r[{}] = r; {}"@ =~= "r = a & ~b; ctx->r["@ + "{}"@ + ("] = r; "@ + "{}"@ + (""@)));
    let args_0 = seq![x0, x1];
    let args_1 = seq![x1];
    let args_2 = Seq::<Seq<char>>::empty();
    assert(args_0.skip(1) =~= args_1);
    assert(args_1.skip(1) =~= args_2);
    lemma_hole("r = a & ~b; ctx->r["@, "] = r; "@ + "{}"@ + (""@), args_0);
    lemma_hole("] = r; "@, ""@, args_1);
    lemma_plain(""@);
    assert(text::fill("r = a & ~b; ctx->r[{}] = r; {}"@, seq![x0, x1]) + rest =~= "r = a & ~b; ctx->r["@ + (x0 + ("] = r; "@ + (x1 + (rest)))));
}

proof fn lemma_letters_19(rest: Seq<char>)
    ensures
        "], r; "@ + ("r = a & ~b; "@ + ("ctx->r["@ + (rest))) == "], r; "@ + ("r = a & ~b; ctx->r["@ + (rest)),
{
    reveal_strlit("], r; ");
    reveal_strlit("r = a & ~b; ");
    reveal_strlit("ctx->r[");
    reveal_strlit("r = a & ~b; ctx->r[");
    assert("], r; "@ + ("r = a & ~b; "@ + ("ctx->r["@ + (rest))) =~= "], r; "@ + ("r = a & ~b; ctx->r["@ + (rest)));
}

pub open spec fn alu_bic_line(rd: nat, rs: nat) -> Program {
    Program::Then(
        Layout::First,
        Statement::Open,
        Box::new(Program::Then(
        Layout::Middle,
        Statement::Declare(Type::U32, Declared::More(Name::A, Expression::Register(rd), Box::new(Declared::More(Name::B, Expression::Register(rs), Box::new(Declared::Bare(Name::R)))))),
        Box::new(Program::Then(
        Layout::Middle,
        Statement::Assign(Place::Local(Name::R), Expression::Two(Operator::And, Box::new(Expression::Local(Name::A)), Box::new(Expression::Flip(Box::new(Expression::Local(Name::B)))))),
        Box::new(Program::Then(
        Layout::Middle,
        Statement::Assign(Place::Register(rd), Expression::Local(Name::R)),
        Box::new(Program::Then(
        Layout::Middle,
        Statement::Assign(Place::Field(Field::N), Expression::Two(Operator::Right, Box::new(Expression::Local(Name::R)), Box::new(Expression::Int(31)))),
        Box::new(Program::Then(
        Layout::Middle,
        Statement::Assign(Place::Field(Field::Z), Expression::Two(Operator::Equal, Box::new(Expression::Local(Name::R)), Box::new(Expression::Int(0)))),
        Box::new(Program::Then(
        Layout::Last,
        Statement::Close,
        Box::new(Program::End),
    )),
    )),
    )),
    )),
    )),
    )),
    )
}

pub proof fn lemma_alu_bic_line(rd: nat, rs: nat)
    ensures
        alu_bic_line(rd, rs).text() == text::fill("    { uint32_t a = ctx->r[{}], b = ctx->r[{}], r; {} }"@, seq![text::dec(rd), text::dec(rs), text::fill("r = a & ~b; ctx->r[{}] = r; {}"@, seq![text::dec(rd), lower::NZ@])]).push('\n'),
        alu_bic_line(rd, rs).grouped(),
{
    reveal_with_fuel(Program::text, 8);
    reveal_with_fuel(Program::grouped, 8);
    lemma_statement_3(Seq::<char>::empty());
    lemma_statement_6("}\n"@ + (Seq::<char>::empty()));
    lemma_statement_7("ctx->z = r == 0; "@ + ("}\n"@ + (Seq::<char>::empty())));
    lemma_statement_12(rd, "ctx->n = r >> 31; "@ + ("ctx->z = r == 0; "@ + ("}\n"@ + (Seq::<char>::empty()))));
    lemma_statement_23("ctx->r["@ + (text::dec(rd) + ("] = r; "@ + ("ctx->n = r >> 31; "@ + ("ctx->z = r == 0; "@ + ("}\n"@ + (Seq::<char>::empty())))))));
    lemma_statement_19(rd, rs, "r = a & ~b; "@ + ("ctx->r["@ + (text::dec(rd) + ("] = r; "@ + ("ctx->n = r >> 31; "@ + ("ctx->z = r == 0; "@ + ("}\n"@ + (Seq::<char>::empty()))))))));
    lemma_statement_9("uint32_t a = ctx->r["@ + (text::dec(rd) + ("], b = ctx->r["@ + (text::dec(rs) + ("], r; "@ + ("r = a & ~b; "@ + ("ctx->r["@ + (text::dec(rd) + ("] = r; "@ + ("ctx->n = r >> 31; "@ + ("ctx->z = r == 0; "@ + ("}\n"@ + (Seq::<char>::empty())))))))))))));
    assert(lower::NZ@ == "ctx->n = r >> 31; ctx->z = r == 0;"@);
    lemma_text_14(text::dec(rd), lower::NZ@, " }"@ + ("\n"@ + Seq::<char>::empty()));
    lemma_text_9(text::dec(rd), text::dec(rs), text::fill("r = a & ~b; ctx->r[{}] = r; {}"@, seq![text::dec(rd), lower::NZ@]), "\n"@ + Seq::<char>::empty());
    lemma_letters_10(Seq::<char>::empty());
    lemma_letters_19(text::dec(rd) + ("] = r; "@ + ("ctx->n = r >> 31; ctx->z = r == 0;"@ + (" }"@ + ("\n"@ + (Seq::<char>::empty()))))));
    lemma_letters_3(text::dec(rd) + ("], b = ctx->r["@ + (text::dec(rs) + ("], r; "@ + ("r = a & ~b; ctx->r["@ + (text::dec(rd) + ("] = r; "@ + ("ctx->n = r >> 31; ctx->z = r == 0;"@ + (" }"@ + ("\n"@ + (Seq::<char>::empty())))))))))));
    reveal_strlit("\n");
    assert(text::fill("    { uint32_t a = ctx->r[{}], b = ctx->r[{}], r; {} }"@, seq![text::dec(rd), text::dec(rs), text::fill("r = a & ~b; ctx->r[{}] = r; {}"@, seq![text::dec(rd), lower::NZ@])]).push('\n') =~= text::fill("    { uint32_t a = ctx->r[{}], b = ctx->r[{}], r; {} }"@, seq![text::dec(rd), text::dec(rs), text::fill("r = a & ~b; ctx->r[{}] = r; {}"@, seq![text::dec(rd), lower::NZ@])]) + ("\n"@ + Seq::<char>::empty()));
    assert(alu_bic_line(rd, rs).text() == text::fill("    { uint32_t a = ctx->r[{}], b = ctx->r[{}], r; {} }"@, seq![text::dec(rd), text::dec(rs), text::fill("r = a & ~b; ctx->r[{}] = r; {}"@, seq![text::dec(rd), lower::NZ@])]).push('\n'));
}

proof fn lemma_statement_24(rest: Seq<char>)
    ensures
        Layout::Middle.around(Statement::Assign(Place::Local(Name::R), Expression::Flip(Box::new(Expression::Local(Name::B)))).text()) + rest == "r = ~b; "@ + (rest),
        Statement::Assign(Place::Local(Name::R), Expression::Flip(Box::new(Expression::Local(Name::B)))).grouped(),
{
    reveal_strlit(" ");
    reveal_strlit(" = ");
    reveal_strlit(";");
    reveal_strlit("b");
    reveal_strlit("r");
    reveal_strlit("r = ~b; ");
    reveal_strlit("~");
    small_c::lemma_numbers();
    reveal(Statement::text);
    reveal(Statement::grouped);
    reveal_with_fuel(Expression::text, 3);
    reveal_with_fuel(Expression::grouped, 3);
    assert(Layout::Middle.around(Statement::Assign(Place::Local(Name::R), Expression::Flip(Box::new(Expression::Local(Name::B)))).text()) + rest =~= "r = ~b; "@ + (rest));
}

proof fn lemma_text_15(x0: Seq<char>, x1: Seq<char>, rest: Seq<char>)
    ensures
        text::fill("r = ~b; ctx->r[{}] = r; {}"@, seq![x0, x1]) + rest == "r = ~b; ctx->r["@ + (x0 + ("] = r; "@ + (x1 + (rest)))),
{
    reveal_strlit("r = ~b; ctx->r[{}] = r; {}");
    reveal_strlit("{}");
    reveal_strlit("r = ~b; ctx->r[");
    reveal_strlit("] = r; ");
    reveal_strlit("");
    assert("r = ~b; ctx->r[{}] = r; {}"@ =~= "r = ~b; ctx->r["@ + "{}"@ + ("] = r; "@ + "{}"@ + (""@)));
    let args_0 = seq![x0, x1];
    let args_1 = seq![x1];
    let args_2 = Seq::<Seq<char>>::empty();
    assert(args_0.skip(1) =~= args_1);
    assert(args_1.skip(1) =~= args_2);
    lemma_hole("r = ~b; ctx->r["@, "] = r; "@ + "{}"@ + (""@), args_0);
    lemma_hole("] = r; "@, ""@, args_1);
    lemma_plain(""@);
    assert(text::fill("r = ~b; ctx->r[{}] = r; {}"@, seq![x0, x1]) + rest =~= "r = ~b; ctx->r["@ + (x0 + ("] = r; "@ + (x1 + (rest)))));
}

proof fn lemma_letters_20(rest: Seq<char>)
    ensures
        "], r; "@ + ("r = ~b; "@ + ("ctx->r["@ + (rest))) == "], r; "@ + ("r = ~b; ctx->r["@ + (rest)),
{
    reveal_strlit("], r; ");
    reveal_strlit("r = ~b; ");
    reveal_strlit("ctx->r[");
    reveal_strlit("r = ~b; ctx->r[");
    assert("], r; "@ + ("r = ~b; "@ + ("ctx->r["@ + (rest))) =~= "], r; "@ + ("r = ~b; ctx->r["@ + (rest)));
}

pub open spec fn alu_mvn_line(rd: nat, rs: nat) -> Program {
    Program::Then(
        Layout::First,
        Statement::Open,
        Box::new(Program::Then(
        Layout::Middle,
        Statement::Declare(Type::U32, Declared::More(Name::A, Expression::Register(rd), Box::new(Declared::More(Name::B, Expression::Register(rs), Box::new(Declared::Bare(Name::R)))))),
        Box::new(Program::Then(
        Layout::Middle,
        Statement::Assign(Place::Local(Name::R), Expression::Flip(Box::new(Expression::Local(Name::B)))),
        Box::new(Program::Then(
        Layout::Middle,
        Statement::Assign(Place::Register(rd), Expression::Local(Name::R)),
        Box::new(Program::Then(
        Layout::Middle,
        Statement::Assign(Place::Field(Field::N), Expression::Two(Operator::Right, Box::new(Expression::Local(Name::R)), Box::new(Expression::Int(31)))),
        Box::new(Program::Then(
        Layout::Middle,
        Statement::Assign(Place::Field(Field::Z), Expression::Two(Operator::Equal, Box::new(Expression::Local(Name::R)), Box::new(Expression::Int(0)))),
        Box::new(Program::Then(
        Layout::Last,
        Statement::Close,
        Box::new(Program::End),
    )),
    )),
    )),
    )),
    )),
    )),
    )
}

pub proof fn lemma_alu_mvn_line(rd: nat, rs: nat)
    ensures
        alu_mvn_line(rd, rs).text() == text::fill("    { uint32_t a = ctx->r[{}], b = ctx->r[{}], r; {} }"@, seq![text::dec(rd), text::dec(rs), text::fill("r = ~b; ctx->r[{}] = r; {}"@, seq![text::dec(rd), lower::NZ@])]).push('\n'),
        alu_mvn_line(rd, rs).grouped(),
{
    reveal_with_fuel(Program::text, 8);
    reveal_with_fuel(Program::grouped, 8);
    lemma_statement_3(Seq::<char>::empty());
    lemma_statement_6("}\n"@ + (Seq::<char>::empty()));
    lemma_statement_7("ctx->z = r == 0; "@ + ("}\n"@ + (Seq::<char>::empty())));
    lemma_statement_12(rd, "ctx->n = r >> 31; "@ + ("ctx->z = r == 0; "@ + ("}\n"@ + (Seq::<char>::empty()))));
    lemma_statement_24("ctx->r["@ + (text::dec(rd) + ("] = r; "@ + ("ctx->n = r >> 31; "@ + ("ctx->z = r == 0; "@ + ("}\n"@ + (Seq::<char>::empty())))))));
    lemma_statement_19(rd, rs, "r = ~b; "@ + ("ctx->r["@ + (text::dec(rd) + ("] = r; "@ + ("ctx->n = r >> 31; "@ + ("ctx->z = r == 0; "@ + ("}\n"@ + (Seq::<char>::empty()))))))));
    lemma_statement_9("uint32_t a = ctx->r["@ + (text::dec(rd) + ("], b = ctx->r["@ + (text::dec(rs) + ("], r; "@ + ("r = ~b; "@ + ("ctx->r["@ + (text::dec(rd) + ("] = r; "@ + ("ctx->n = r >> 31; "@ + ("ctx->z = r == 0; "@ + ("}\n"@ + (Seq::<char>::empty())))))))))))));
    assert(lower::NZ@ == "ctx->n = r >> 31; ctx->z = r == 0;"@);
    lemma_text_15(text::dec(rd), lower::NZ@, " }"@ + ("\n"@ + Seq::<char>::empty()));
    lemma_text_9(text::dec(rd), text::dec(rs), text::fill("r = ~b; ctx->r[{}] = r; {}"@, seq![text::dec(rd), lower::NZ@]), "\n"@ + Seq::<char>::empty());
    lemma_letters_10(Seq::<char>::empty());
    lemma_letters_20(text::dec(rd) + ("] = r; "@ + ("ctx->n = r >> 31; ctx->z = r == 0;"@ + (" }"@ + ("\n"@ + (Seq::<char>::empty()))))));
    lemma_letters_3(text::dec(rd) + ("], b = ctx->r["@ + (text::dec(rs) + ("], r; "@ + ("r = ~b; ctx->r["@ + (text::dec(rd) + ("] = r; "@ + ("ctx->n = r >> 31; ctx->z = r == 0;"@ + (" }"@ + ("\n"@ + (Seq::<char>::empty())))))))))));
    reveal_strlit("\n");
    assert(text::fill("    { uint32_t a = ctx->r[{}], b = ctx->r[{}], r; {} }"@, seq![text::dec(rd), text::dec(rs), text::fill("r = ~b; ctx->r[{}] = r; {}"@, seq![text::dec(rd), lower::NZ@])]).push('\n') =~= text::fill("    { uint32_t a = ctx->r[{}], b = ctx->r[{}], r; {} }"@, seq![text::dec(rd), text::dec(rs), text::fill("r = ~b; ctx->r[{}] = r; {}"@, seq![text::dec(rd), lower::NZ@])]) + ("\n"@ + Seq::<char>::empty()));
    assert(alu_mvn_line(rd, rs).text() == text::fill("    { uint32_t a = ctx->r[{}], b = ctx->r[{}], r; {} }"@, seq![text::dec(rd), text::dec(rs), text::fill("r = ~b; ctx->r[{}] = r; {}"@, seq![text::dec(rd), lower::NZ@])]).push('\n'));
}

#[verifier::rlimit(60)]
proof fn lemma_statement_25(rest: Seq<char>)
    ensures
        Layout::Middle.around(Statement::Assign(Place::Field(Field::C), Expression::Two(Operator::Right, Box::new(Expression::Group(Box::new(Expression::Two(Operator::Plus, Box::new(Expression::Two(Operator::Plus, Box::new(Expression::Cast(Type::U64, Box::new(Expression::Local(Name::A)))), Box::new(Expression::Local(Name::B)))), Box::new(Expression::Local(Name::Ci)))))), Box::new(Expression::Int(32)))).text()) + rest == "ctx->c = ((uint64_t)a + b + ci) >> 32; "@ + (rest),
        Statement::Assign(Place::Field(Field::C), Expression::Two(Operator::Right, Box::new(Expression::Group(Box::new(Expression::Two(Operator::Plus, Box::new(Expression::Two(Operator::Plus, Box::new(Expression::Cast(Type::U64, Box::new(Expression::Local(Name::A)))), Box::new(Expression::Local(Name::B)))), Box::new(Expression::Local(Name::Ci)))))), Box::new(Expression::Int(32)))).grouped(),
{
    reveal_strlit(" ");
    reveal_strlit(" + ");
    reveal_strlit(" = ");
    reveal_strlit(" >> ");
    reveal_strlit("(");
    reveal_strlit(")");
    reveal_strlit("32");
    reveal_strlit(";");
    reveal_strlit("a");
    reveal_strlit("b");
    reveal_strlit("ci");
    reveal_strlit("ctx->c");
    reveal_strlit("ctx->c = ((uint64_t)a + b + ci) >> 32; ");
    reveal_strlit("uint64_t");
    small_c::lemma_numbers();
    reveal(Statement::text);
    reveal(Statement::grouped);
    reveal_with_fuel(Expression::text, 7);
    reveal_with_fuel(Expression::grouped, 7);
    assert(Layout::Middle.around(Statement::Assign(Place::Field(Field::C), Expression::Two(Operator::Right, Box::new(Expression::Group(Box::new(Expression::Two(Operator::Plus, Box::new(Expression::Two(Operator::Plus, Box::new(Expression::Cast(Type::U64, Box::new(Expression::Local(Name::A)))), Box::new(Expression::Local(Name::B)))), Box::new(Expression::Local(Name::Ci)))))), Box::new(Expression::Int(32)))).text()) + rest =~= "ctx->c = ((uint64_t)a + b + ci) >> 32; "@ + (rest));
}

proof fn lemma_statement_26(rest: Seq<char>)
    ensures
        Layout::Middle.around(Statement::Assign(Place::Local(Name::R), Expression::Two(Operator::Plus, Box::new(Expression::Two(Operator::Plus, Box::new(Expression::Local(Name::A)), Box::new(Expression::Local(Name::B)))), Box::new(Expression::Local(Name::Ci)))).text()) + rest == "r = a + b + ci; "@ + (rest),
        Statement::Assign(Place::Local(Name::R), Expression::Two(Operator::Plus, Box::new(Expression::Two(Operator::Plus, Box::new(Expression::Local(Name::A)), Box::new(Expression::Local(Name::B)))), Box::new(Expression::Local(Name::Ci)))).grouped(),
{
    reveal_strlit(" ");
    reveal_strlit(" + ");
    reveal_strlit(" = ");
    reveal_strlit(";");
    reveal_strlit("a");
    reveal_strlit("b");
    reveal_strlit("ci");
    reveal_strlit("r");
    reveal_strlit("r = a + b + ci; ");
    small_c::lemma_numbers();
    reveal(Statement::text);
    reveal(Statement::grouped);
    reveal_with_fuel(Expression::text, 4);
    reveal_with_fuel(Expression::grouped, 4);
    assert(Layout::Middle.around(Statement::Assign(Place::Local(Name::R), Expression::Two(Operator::Plus, Box::new(Expression::Two(Operator::Plus, Box::new(Expression::Local(Name::A)), Box::new(Expression::Local(Name::B)))), Box::new(Expression::Local(Name::Ci)))).text()) + rest =~= "r = a + b + ci; "@ + (rest));
}

proof fn lemma_statement_27(rest: Seq<char>)
    ensures
        Layout::Middle.around(Statement::Declare(Type::U8, Declared::One(Name::Ci, Expression::Field(Field::C))).text()) + rest == "uint8_t ci = ctx->c; "@ + (rest),
        Statement::Declare(Type::U8, Declared::One(Name::Ci, Expression::Field(Field::C))).grouped(),
{
    reveal_strlit(" ");
    reveal_strlit(" = ");
    reveal_strlit(";");
    reveal_strlit("ci");
    reveal_strlit("ctx->c");
    reveal_strlit("uint8_t");
    reveal_strlit("uint8_t ci = ctx->c; ");
    small_c::lemma_numbers();
    reveal(Statement::text);
    reveal(Statement::grouped);
    reveal_with_fuel(Declared::text, 2);
    reveal_with_fuel(Declared::grouped, 2);
    reveal_with_fuel(Expression::text, 2);
    reveal_with_fuel(Expression::grouped, 2);
    assert(Layout::Middle.around(Statement::Declare(Type::U8, Declared::One(Name::Ci, Expression::Field(Field::C))).text()) + rest =~= "uint8_t ci = ctx->c; "@ + (rest));
}

proof fn lemma_text_16(x0: Seq<char>, x1: Seq<char>, rest: Seq<char>)
    ensures
        text::fill("uint8_t ci = ctx->c; r = a + b + ci; ctx->r[{}] = r; {} ctx->c = ((uint64_t)a + b + ci) >> 32; ctx->v = ((a ^ r) & (b ^ r)) >> 31;"@, seq![x0, x1]) + rest == "uint8_t ci = ctx->c; r = a + b + ci; ctx->r["@ + (x0 + ("] = r; "@ + (x1 + (" ctx->c = ((uint64_t)a + b + ci) >> 32; ctx->v = ((a ^ r) & (b ^ r)) >> 31;"@ + (rest))))),
{
    reveal_strlit("uint8_t ci = ctx->c; r = a + b + ci; ctx->r[{}] = r; {} ctx->c = ((uint64_t)a + b + ci) >> 32; ctx->v = ((a ^ r) & (b ^ r)) >> 31;");
    reveal_strlit("{}");
    reveal_strlit("uint8_t ci = ctx->c; r = a + b + ci; ctx->r[");
    reveal_strlit("] = r; ");
    reveal_strlit(" ctx->c = ((uint64_t)a + b + ci) >> 32; ctx->v = ((a ^ r) & (b ^ r)) >> 31;");
    assert("uint8_t ci = ctx->c; r = a + b + ci; ctx->r[{}] = r; {} ctx->c = ((uint64_t)a + b + ci) >> 32; ctx->v = ((a ^ r) & (b ^ r)) >> 31;"@ =~= "uint8_t ci = ctx->c; r = a + b + ci; ctx->r["@ + "{}"@ + ("] = r; "@ + "{}"@ + (" ctx->c = ((uint64_t)a + b + ci) >> 32; ctx->v = ((a ^ r) & (b ^ r)) >> 31;"@)));
    let args_0 = seq![x0, x1];
    let args_1 = seq![x1];
    let args_2 = Seq::<Seq<char>>::empty();
    assert(args_0.skip(1) =~= args_1);
    assert(args_1.skip(1) =~= args_2);
    lemma_hole("uint8_t ci = ctx->c; r = a + b + ci; ctx->r["@, "] = r; "@ + "{}"@ + (" ctx->c = ((uint64_t)a + b + ci) >> 32; ctx->v = ((a ^ r) & (b ^ r)) >> 31;"@), args_0);
    lemma_hole("] = r; "@, " ctx->c = ((uint64_t)a + b + ci) >> 32; ctx->v = ((a ^ r) & (b ^ r)) >> 31;"@, args_1);
    lemma_plain(" ctx->c = ((uint64_t)a + b + ci) >> 32; ctx->v = ((a ^ r) & (b ^ r)) >> 31;"@);
    assert(text::fill("uint8_t ci = ctx->c; r = a + b + ci; ctx->r[{}] = r; {} ctx->c = ((uint64_t)a + b + ci) >> 32; ctx->v = ((a ^ r) & (b ^ r)) >> 31;"@, seq![x0, x1]) + rest =~= "uint8_t ci = ctx->c; r = a + b + ci; ctx->r["@ + (x0 + ("] = r; "@ + (x1 + (" ctx->c = ((uint64_t)a + b + ci) >> 32; ctx->v = ((a ^ r) & (b ^ r)) >> 31;"@ + (rest))))));
}

proof fn lemma_letters_21(rest: Seq<char>)
    ensures
        "] = r; "@ + ("ctx->n = r >> 31; "@ + ("ctx->z = r == 0; "@ + ("ctx->c = ((uint64_t)a + b + ci) >> 32; "@ + ("ctx->v = ((a ^ r) & (b ^ r)) >> 31; "@ + ("}\n"@ + (rest)))))) == "] = r; "@ + ("ctx->n = r >> 31; ctx->z = r == 0;"@ + (" ctx->c = ((uint64_t)a + b + ci) >> 32; ctx->v = ((a ^ r) & (b ^ r)) >> 31;"@ + (" }"@ + ("\n"@ + (rest))))),
{
    reveal_strlit("] = r; ");
    reveal_strlit("ctx->n = r >> 31; ");
    reveal_strlit("ctx->z = r == 0; ");
    reveal_strlit("ctx->c = ((uint64_t)a + b + ci) >> 32; ");
    reveal_strlit("ctx->v = ((a ^ r) & (b ^ r)) >> 31; ");
    reveal_strlit("}\n");
    reveal_strlit("ctx->n = r >> 31; ctx->z = r == 0;");
    reveal_strlit(" ctx->c = ((uint64_t)a + b + ci) >> 32; ctx->v = ((a ^ r) & (b ^ r)) >> 31;");
    reveal_strlit(" }");
    reveal_strlit("\n");
    assert("] = r; "@ + ("ctx->n = r >> 31; "@ + ("ctx->z = r == 0; "@ + ("ctx->c = ((uint64_t)a + b + ci) >> 32; "@ + ("ctx->v = ((a ^ r) & (b ^ r)) >> 31; "@ + ("}\n"@ + (rest)))))) =~= "] = r; "@ + ("ctx->n = r >> 31; ctx->z = r == 0;"@ + (" ctx->c = ((uint64_t)a + b + ci) >> 32; ctx->v = ((a ^ r) & (b ^ r)) >> 31;"@ + (" }"@ + ("\n"@ + (rest))))));
}

proof fn lemma_letters_22(rest: Seq<char>)
    ensures
        "], r; "@ + ("uint8_t ci = ctx->c; "@ + ("r = a + b + ci; "@ + ("ctx->r["@ + (rest)))) == "], r; "@ + ("uint8_t ci = ctx->c; r = a + b + ci; ctx->r["@ + (rest)),
{
    reveal_strlit("], r; ");
    reveal_strlit("uint8_t ci = ctx->c; ");
    reveal_strlit("r = a + b + ci; ");
    reveal_strlit("ctx->r[");
    reveal_strlit("uint8_t ci = ctx->c; r = a + b + ci; ctx->r[");
    assert("], r; "@ + ("uint8_t ci = ctx->c; "@ + ("r = a + b + ci; "@ + ("ctx->r["@ + (rest)))) =~= "], r; "@ + ("uint8_t ci = ctx->c; r = a + b + ci; ctx->r["@ + (rest)));
}

pub open spec fn alu_adc_line(rd: nat, rs: nat) -> Program {
    Program::Then(
        Layout::First,
        Statement::Open,
        Box::new(Program::Then(
        Layout::Middle,
        Statement::Declare(Type::U32, Declared::More(Name::A, Expression::Register(rd), Box::new(Declared::More(Name::B, Expression::Register(rs), Box::new(Declared::Bare(Name::R)))))),
        Box::new(Program::Then(
        Layout::Middle,
        Statement::Declare(Type::U8, Declared::One(Name::Ci, Expression::Field(Field::C))),
        Box::new(Program::Then(
        Layout::Middle,
        Statement::Assign(Place::Local(Name::R), Expression::Two(Operator::Plus, Box::new(Expression::Two(Operator::Plus, Box::new(Expression::Local(Name::A)), Box::new(Expression::Local(Name::B)))), Box::new(Expression::Local(Name::Ci)))),
        Box::new(Program::Then(
        Layout::Middle,
        Statement::Assign(Place::Register(rd), Expression::Local(Name::R)),
        Box::new(Program::Then(
        Layout::Middle,
        Statement::Assign(Place::Field(Field::N), Expression::Two(Operator::Right, Box::new(Expression::Local(Name::R)), Box::new(Expression::Int(31)))),
        Box::new(Program::Then(
        Layout::Middle,
        Statement::Assign(Place::Field(Field::Z), Expression::Two(Operator::Equal, Box::new(Expression::Local(Name::R)), Box::new(Expression::Int(0)))),
        Box::new(Program::Then(
        Layout::Middle,
        Statement::Assign(Place::Field(Field::C), Expression::Two(Operator::Right, Box::new(Expression::Group(Box::new(Expression::Two(Operator::Plus, Box::new(Expression::Two(Operator::Plus, Box::new(Expression::Cast(Type::U64, Box::new(Expression::Local(Name::A)))), Box::new(Expression::Local(Name::B)))), Box::new(Expression::Local(Name::Ci)))))), Box::new(Expression::Int(32)))),
        Box::new(Program::Then(
        Layout::Middle,
        Statement::Assign(Place::Field(Field::V), Expression::Two(Operator::Right, Box::new(Expression::Group(Box::new(Expression::Two(Operator::And, Box::new(Expression::Group(Box::new(Expression::Two(Operator::Xor, Box::new(Expression::Local(Name::A)), Box::new(Expression::Local(Name::R)))))), Box::new(Expression::Group(Box::new(Expression::Two(Operator::Xor, Box::new(Expression::Local(Name::B)), Box::new(Expression::Local(Name::R)))))))))), Box::new(Expression::Int(31)))),
        Box::new(Program::Then(
        Layout::Last,
        Statement::Close,
        Box::new(Program::End),
    )),
    )),
    )),
    )),
    )),
    )),
    )),
    )),
    )),
    )
}

pub proof fn lemma_alu_adc_line(rd: nat, rs: nat)
    ensures
        alu_adc_line(rd, rs).text() == text::fill("    { uint32_t a = ctx->r[{}], b = ctx->r[{}], r; {} }"@, seq![text::dec(rd), text::dec(rs), text::fill("uint8_t ci = ctx->c; r = a + b + ci; ctx->r[{}] = r; {} ctx->c = ((uint64_t)a + b + ci) >> 32; ctx->v = ((a ^ r) & (b ^ r)) >> 31;"@, seq![text::dec(rd), lower::NZ@])]).push('\n'),
        alu_adc_line(rd, rs).grouped(),
{
    reveal_with_fuel(Program::text, 11);
    reveal_with_fuel(Program::grouped, 11);
    lemma_statement_3(Seq::<char>::empty());
    lemma_statement_10("}\n"@ + (Seq::<char>::empty()));
    lemma_statement_25("ctx->v = ((a ^ r) & (b ^ r)) >> 31; "@ + ("}\n"@ + (Seq::<char>::empty())));
    lemma_statement_6("ctx->c = ((uint64_t)a + b + ci) >> 32; "@ + ("ctx->v = ((a ^ r) & (b ^ r)) >> 31; "@ + ("}\n"@ + (Seq::<char>::empty()))));
    lemma_statement_7("ctx->z = r == 0; "@ + ("ctx->c = ((uint64_t)a + b + ci) >> 32; "@ + ("ctx->v = ((a ^ r) & (b ^ r)) >> 31; "@ + ("}\n"@ + (Seq::<char>::empty())))));
    lemma_statement_12(rd, "ctx->n = r >> 31; "@ + ("ctx->z = r == 0; "@ + ("ctx->c = ((uint64_t)a + b + ci) >> 32; "@ + ("ctx->v = ((a ^ r) & (b ^ r)) >> 31; "@ + ("}\n"@ + (Seq::<char>::empty()))))));
    lemma_statement_26("ctx->r["@ + (text::dec(rd) + ("] = r; "@ + ("ctx->n = r >> 31; "@ + ("ctx->z = r == 0; "@ + ("ctx->c = ((uint64_t)a + b + ci) >> 32; "@ + ("ctx->v = ((a ^ r) & (b ^ r)) >> 31; "@ + ("}\n"@ + (Seq::<char>::empty())))))))));
    lemma_statement_27("r = a + b + ci; "@ + ("ctx->r["@ + (text::dec(rd) + ("] = r; "@ + ("ctx->n = r >> 31; "@ + ("ctx->z = r == 0; "@ + ("ctx->c = ((uint64_t)a + b + ci) >> 32; "@ + ("ctx->v = ((a ^ r) & (b ^ r)) >> 31; "@ + ("}\n"@ + (Seq::<char>::empty()))))))))));
    lemma_statement_19(rd, rs, "uint8_t ci = ctx->c; "@ + ("r = a + b + ci; "@ + ("ctx->r["@ + (text::dec(rd) + ("] = r; "@ + ("ctx->n = r >> 31; "@ + ("ctx->z = r == 0; "@ + ("ctx->c = ((uint64_t)a + b + ci) >> 32; "@ + ("ctx->v = ((a ^ r) & (b ^ r)) >> 31; "@ + ("}\n"@ + (Seq::<char>::empty())))))))))));
    lemma_statement_9("uint32_t a = ctx->r["@ + (text::dec(rd) + ("], b = ctx->r["@ + (text::dec(rs) + ("], r; "@ + ("uint8_t ci = ctx->c; "@ + ("r = a + b + ci; "@ + ("ctx->r["@ + (text::dec(rd) + ("] = r; "@ + ("ctx->n = r >> 31; "@ + ("ctx->z = r == 0; "@ + ("ctx->c = ((uint64_t)a + b + ci) >> 32; "@ + ("ctx->v = ((a ^ r) & (b ^ r)) >> 31; "@ + ("}\n"@ + (Seq::<char>::empty()))))))))))))))));
    assert(lower::NZ@ == "ctx->n = r >> 31; ctx->z = r == 0;"@);
    lemma_text_16(text::dec(rd), lower::NZ@, " }"@ + ("\n"@ + Seq::<char>::empty()));
    lemma_text_9(text::dec(rd), text::dec(rs), text::fill("uint8_t ci = ctx->c; r = a + b + ci; ctx->r[{}] = r; {} ctx->c = ((uint64_t)a + b + ci) >> 32; ctx->v = ((a ^ r) & (b ^ r)) >> 31;"@, seq![text::dec(rd), lower::NZ@]), "\n"@ + Seq::<char>::empty());
    lemma_letters_21(Seq::<char>::empty());
    lemma_letters_22(text::dec(rd) + ("] = r; "@ + ("ctx->n = r >> 31; ctx->z = r == 0;"@ + (" ctx->c = ((uint64_t)a + b + ci) >> 32; ctx->v = ((a ^ r) & (b ^ r)) >> 31;"@ + (" }"@ + ("\n"@ + (Seq::<char>::empty())))))));
    lemma_letters_3(text::dec(rd) + ("], b = ctx->r["@ + (text::dec(rs) + ("], r; "@ + ("uint8_t ci = ctx->c; r = a + b + ci; ctx->r["@ + (text::dec(rd) + ("] = r; "@ + ("ctx->n = r >> 31; ctx->z = r == 0;"@ + (" ctx->c = ((uint64_t)a + b + ci) >> 32; ctx->v = ((a ^ r) & (b ^ r)) >> 31;"@ + (" }"@ + ("\n"@ + (Seq::<char>::empty()))))))))))));
    reveal_strlit("\n");
    assert(text::fill("    { uint32_t a = ctx->r[{}], b = ctx->r[{}], r; {} }"@, seq![text::dec(rd), text::dec(rs), text::fill("uint8_t ci = ctx->c; r = a + b + ci; ctx->r[{}] = r; {} ctx->c = ((uint64_t)a + b + ci) >> 32; ctx->v = ((a ^ r) & (b ^ r)) >> 31;"@, seq![text::dec(rd), lower::NZ@])]).push('\n') =~= text::fill("    { uint32_t a = ctx->r[{}], b = ctx->r[{}], r; {} }"@, seq![text::dec(rd), text::dec(rs), text::fill("uint8_t ci = ctx->c; r = a + b + ci; ctx->r[{}] = r; {} ctx->c = ((uint64_t)a + b + ci) >> 32; ctx->v = ((a ^ r) & (b ^ r)) >> 31;"@, seq![text::dec(rd), lower::NZ@])]) + ("\n"@ + Seq::<char>::empty()));
    assert(alu_adc_line(rd, rs).text() == text::fill("    { uint32_t a = ctx->r[{}], b = ctx->r[{}], r; {} }"@, seq![text::dec(rd), text::dec(rs), text::fill("uint8_t ci = ctx->c; r = a + b + ci; ctx->r[{}] = r; {} ctx->c = ((uint64_t)a + b + ci) >> 32; ctx->v = ((a ^ r) & (b ^ r)) >> 31;"@, seq![text::dec(rd), lower::NZ@])]).push('\n'));
}

#[verifier::rlimit(60)]
proof fn lemma_statement_28(rest: Seq<char>)
    ensures
        Layout::Middle.around(Statement::Assign(Place::Field(Field::C), Expression::Two(Operator::AtLeast, Box::new(Expression::Cast(Type::U64, Box::new(Expression::Local(Name::A)))), Box::new(Expression::Two(Operator::Plus, Box::new(Expression::Cast(Type::U64, Box::new(Expression::Local(Name::B)))), Box::new(Expression::Not(Box::new(Expression::Local(Name::Ci)))))))).text()) + rest == "ctx->c = (uint64_t)a >= (uint64_t)b + !ci; "@ + (rest),
        Statement::Assign(Place::Field(Field::C), Expression::Two(Operator::AtLeast, Box::new(Expression::Cast(Type::U64, Box::new(Expression::Local(Name::A)))), Box::new(Expression::Two(Operator::Plus, Box::new(Expression::Cast(Type::U64, Box::new(Expression::Local(Name::B)))), Box::new(Expression::Not(Box::new(Expression::Local(Name::Ci)))))))).grouped(),
{
    reveal_strlit(" ");
    reveal_strlit(" + ");
    reveal_strlit(" = ");
    reveal_strlit(" >= ");
    reveal_strlit("!");
    reveal_strlit("(");
    reveal_strlit(")");
    reveal_strlit(";");
    reveal_strlit("a");
    reveal_strlit("b");
    reveal_strlit("ci");
    reveal_strlit("ctx->c");
    reveal_strlit("ctx->c = (uint64_t)a >= (uint64_t)b + !ci; ");
    reveal_strlit("uint64_t");
    small_c::lemma_numbers();
    reveal(Statement::text);
    reveal(Statement::grouped);
    reveal_with_fuel(Expression::text, 5);
    reveal_with_fuel(Expression::grouped, 5);
    assert(Layout::Middle.around(Statement::Assign(Place::Field(Field::C), Expression::Two(Operator::AtLeast, Box::new(Expression::Cast(Type::U64, Box::new(Expression::Local(Name::A)))), Box::new(Expression::Two(Operator::Plus, Box::new(Expression::Cast(Type::U64, Box::new(Expression::Local(Name::B)))), Box::new(Expression::Not(Box::new(Expression::Local(Name::Ci)))))))).text()) + rest =~= "ctx->c = (uint64_t)a >= (uint64_t)b + !ci; "@ + (rest));
}

proof fn lemma_statement_29(rest: Seq<char>)
    ensures
        Layout::Middle.around(Statement::Assign(Place::Local(Name::R), Expression::Two(Operator::Minus, Box::new(Expression::Two(Operator::Minus, Box::new(Expression::Local(Name::A)), Box::new(Expression::Local(Name::B)))), Box::new(Expression::Not(Box::new(Expression::Local(Name::Ci)))))).text()) + rest == "r = a - b - !ci; "@ + (rest),
        Statement::Assign(Place::Local(Name::R), Expression::Two(Operator::Minus, Box::new(Expression::Two(Operator::Minus, Box::new(Expression::Local(Name::A)), Box::new(Expression::Local(Name::B)))), Box::new(Expression::Not(Box::new(Expression::Local(Name::Ci)))))).grouped(),
{
    reveal_strlit(" ");
    reveal_strlit(" - ");
    reveal_strlit(" = ");
    reveal_strlit("!");
    reveal_strlit(";");
    reveal_strlit("a");
    reveal_strlit("b");
    reveal_strlit("ci");
    reveal_strlit("r");
    reveal_strlit("r = a - b - !ci; ");
    small_c::lemma_numbers();
    reveal(Statement::text);
    reveal(Statement::grouped);
    reveal_with_fuel(Expression::text, 4);
    reveal_with_fuel(Expression::grouped, 4);
    assert(Layout::Middle.around(Statement::Assign(Place::Local(Name::R), Expression::Two(Operator::Minus, Box::new(Expression::Two(Operator::Minus, Box::new(Expression::Local(Name::A)), Box::new(Expression::Local(Name::B)))), Box::new(Expression::Not(Box::new(Expression::Local(Name::Ci)))))).text()) + rest =~= "r = a - b - !ci; "@ + (rest));
}

proof fn lemma_text_17(x0: Seq<char>, x1: Seq<char>, rest: Seq<char>)
    ensures
        text::fill("uint8_t ci = ctx->c; r = a - b - !ci; ctx->r[{}] = r; {} ctx->c = (uint64_t)a >= (uint64_t)b + !ci; ctx->v = ((a ^ b) & (a ^ r)) >> 31;"@, seq![x0, x1]) + rest == "uint8_t ci = ctx->c; r = a - b - !ci; ctx->r["@ + (x0 + ("] = r; "@ + (x1 + (" ctx->c = (uint64_t)a >= (uint64_t)b + !ci; ctx->v = ((a ^ b) & (a ^ r)) >> 31;"@ + (rest))))),
{
    reveal_strlit("uint8_t ci = ctx->c; r = a - b - !ci; ctx->r[{}] = r; {} ctx->c = (uint64_t)a >= (uint64_t)b + !ci; ctx->v = ((a ^ b) & (a ^ r)) >> 31;");
    reveal_strlit("{}");
    reveal_strlit("uint8_t ci = ctx->c; r = a - b - !ci; ctx->r[");
    reveal_strlit("] = r; ");
    reveal_strlit(" ctx->c = (uint64_t)a >= (uint64_t)b + !ci; ctx->v = ((a ^ b) & (a ^ r)) >> 31;");
    assert("uint8_t ci = ctx->c; r = a - b - !ci; ctx->r[{}] = r; {} ctx->c = (uint64_t)a >= (uint64_t)b + !ci; ctx->v = ((a ^ b) & (a ^ r)) >> 31;"@ =~= "uint8_t ci = ctx->c; r = a - b - !ci; ctx->r["@ + "{}"@ + ("] = r; "@ + "{}"@ + (" ctx->c = (uint64_t)a >= (uint64_t)b + !ci; ctx->v = ((a ^ b) & (a ^ r)) >> 31;"@)));
    let args_0 = seq![x0, x1];
    let args_1 = seq![x1];
    let args_2 = Seq::<Seq<char>>::empty();
    assert(args_0.skip(1) =~= args_1);
    assert(args_1.skip(1) =~= args_2);
    lemma_hole("uint8_t ci = ctx->c; r = a - b - !ci; ctx->r["@, "] = r; "@ + "{}"@ + (" ctx->c = (uint64_t)a >= (uint64_t)b + !ci; ctx->v = ((a ^ b) & (a ^ r)) >> 31;"@), args_0);
    lemma_hole("] = r; "@, " ctx->c = (uint64_t)a >= (uint64_t)b + !ci; ctx->v = ((a ^ b) & (a ^ r)) >> 31;"@, args_1);
    lemma_plain(" ctx->c = (uint64_t)a >= (uint64_t)b + !ci; ctx->v = ((a ^ b) & (a ^ r)) >> 31;"@);
    assert(text::fill("uint8_t ci = ctx->c; r = a - b - !ci; ctx->r[{}] = r; {} ctx->c = (uint64_t)a >= (uint64_t)b + !ci; ctx->v = ((a ^ b) & (a ^ r)) >> 31;"@, seq![x0, x1]) + rest =~= "uint8_t ci = ctx->c; r = a - b - !ci; ctx->r["@ + (x0 + ("] = r; "@ + (x1 + (" ctx->c = (uint64_t)a >= (uint64_t)b + !ci; ctx->v = ((a ^ b) & (a ^ r)) >> 31;"@ + (rest))))));
}

proof fn lemma_letters_23(rest: Seq<char>)
    ensures
        "] = r; "@ + ("ctx->n = r >> 31; "@ + ("ctx->z = r == 0; "@ + ("ctx->c = (uint64_t)a >= (uint64_t)b + !ci; "@ + ("ctx->v = ((a ^ b) & (a ^ r)) >> 31; "@ + ("}\n"@ + (rest)))))) == "] = r; "@ + ("ctx->n = r >> 31; ctx->z = r == 0;"@ + (" ctx->c = (uint64_t)a >= (uint64_t)b + !ci; ctx->v = ((a ^ b) & (a ^ r)) >> 31;"@ + (" }"@ + ("\n"@ + (rest))))),
{
    reveal_strlit("] = r; ");
    reveal_strlit("ctx->n = r >> 31; ");
    reveal_strlit("ctx->z = r == 0; ");
    reveal_strlit("ctx->c = (uint64_t)a >= (uint64_t)b + !ci; ");
    reveal_strlit("ctx->v = ((a ^ b) & (a ^ r)) >> 31; ");
    reveal_strlit("}\n");
    reveal_strlit("ctx->n = r >> 31; ctx->z = r == 0;");
    reveal_strlit(" ctx->c = (uint64_t)a >= (uint64_t)b + !ci; ctx->v = ((a ^ b) & (a ^ r)) >> 31;");
    reveal_strlit(" }");
    reveal_strlit("\n");
    assert("] = r; "@ + ("ctx->n = r >> 31; "@ + ("ctx->z = r == 0; "@ + ("ctx->c = (uint64_t)a >= (uint64_t)b + !ci; "@ + ("ctx->v = ((a ^ b) & (a ^ r)) >> 31; "@ + ("}\n"@ + (rest)))))) =~= "] = r; "@ + ("ctx->n = r >> 31; ctx->z = r == 0;"@ + (" ctx->c = (uint64_t)a >= (uint64_t)b + !ci; ctx->v = ((a ^ b) & (a ^ r)) >> 31;"@ + (" }"@ + ("\n"@ + (rest))))));
}

proof fn lemma_letters_24(rest: Seq<char>)
    ensures
        "], r; "@ + ("uint8_t ci = ctx->c; "@ + ("r = a - b - !ci; "@ + ("ctx->r["@ + (rest)))) == "], r; "@ + ("uint8_t ci = ctx->c; r = a - b - !ci; ctx->r["@ + (rest)),
{
    reveal_strlit("], r; ");
    reveal_strlit("uint8_t ci = ctx->c; ");
    reveal_strlit("r = a - b - !ci; ");
    reveal_strlit("ctx->r[");
    reveal_strlit("uint8_t ci = ctx->c; r = a - b - !ci; ctx->r[");
    assert("], r; "@ + ("uint8_t ci = ctx->c; "@ + ("r = a - b - !ci; "@ + ("ctx->r["@ + (rest)))) =~= "], r; "@ + ("uint8_t ci = ctx->c; r = a - b - !ci; ctx->r["@ + (rest)));
}

pub open spec fn alu_sbc_line(rd: nat, rs: nat) -> Program {
    Program::Then(
        Layout::First,
        Statement::Open,
        Box::new(Program::Then(
        Layout::Middle,
        Statement::Declare(Type::U32, Declared::More(Name::A, Expression::Register(rd), Box::new(Declared::More(Name::B, Expression::Register(rs), Box::new(Declared::Bare(Name::R)))))),
        Box::new(Program::Then(
        Layout::Middle,
        Statement::Declare(Type::U8, Declared::One(Name::Ci, Expression::Field(Field::C))),
        Box::new(Program::Then(
        Layout::Middle,
        Statement::Assign(Place::Local(Name::R), Expression::Two(Operator::Minus, Box::new(Expression::Two(Operator::Minus, Box::new(Expression::Local(Name::A)), Box::new(Expression::Local(Name::B)))), Box::new(Expression::Not(Box::new(Expression::Local(Name::Ci)))))),
        Box::new(Program::Then(
        Layout::Middle,
        Statement::Assign(Place::Register(rd), Expression::Local(Name::R)),
        Box::new(Program::Then(
        Layout::Middle,
        Statement::Assign(Place::Field(Field::N), Expression::Two(Operator::Right, Box::new(Expression::Local(Name::R)), Box::new(Expression::Int(31)))),
        Box::new(Program::Then(
        Layout::Middle,
        Statement::Assign(Place::Field(Field::Z), Expression::Two(Operator::Equal, Box::new(Expression::Local(Name::R)), Box::new(Expression::Int(0)))),
        Box::new(Program::Then(
        Layout::Middle,
        Statement::Assign(Place::Field(Field::C), Expression::Two(Operator::AtLeast, Box::new(Expression::Cast(Type::U64, Box::new(Expression::Local(Name::A)))), Box::new(Expression::Two(Operator::Plus, Box::new(Expression::Cast(Type::U64, Box::new(Expression::Local(Name::B)))), Box::new(Expression::Not(Box::new(Expression::Local(Name::Ci)))))))),
        Box::new(Program::Then(
        Layout::Middle,
        Statement::Assign(Place::Field(Field::V), Expression::Two(Operator::Right, Box::new(Expression::Group(Box::new(Expression::Two(Operator::And, Box::new(Expression::Group(Box::new(Expression::Two(Operator::Xor, Box::new(Expression::Local(Name::A)), Box::new(Expression::Local(Name::B)))))), Box::new(Expression::Group(Box::new(Expression::Two(Operator::Xor, Box::new(Expression::Local(Name::A)), Box::new(Expression::Local(Name::R)))))))))), Box::new(Expression::Int(31)))),
        Box::new(Program::Then(
        Layout::Last,
        Statement::Close,
        Box::new(Program::End),
    )),
    )),
    )),
    )),
    )),
    )),
    )),
    )),
    )),
    )
}

pub proof fn lemma_alu_sbc_line(rd: nat, rs: nat)
    ensures
        alu_sbc_line(rd, rs).text() == text::fill("    { uint32_t a = ctx->r[{}], b = ctx->r[{}], r; {} }"@, seq![text::dec(rd), text::dec(rs), text::fill("uint8_t ci = ctx->c; r = a - b - !ci; ctx->r[{}] = r; {} ctx->c = (uint64_t)a >= (uint64_t)b + !ci; ctx->v = ((a ^ b) & (a ^ r)) >> 31;"@, seq![text::dec(rd), lower::NZ@])]).push('\n'),
        alu_sbc_line(rd, rs).grouped(),
{
    reveal_with_fuel(Program::text, 11);
    reveal_with_fuel(Program::grouped, 11);
    lemma_statement_3(Seq::<char>::empty());
    lemma_statement_4("}\n"@ + (Seq::<char>::empty()));
    lemma_statement_28("ctx->v = ((a ^ b) & (a ^ r)) >> 31; "@ + ("}\n"@ + (Seq::<char>::empty())));
    lemma_statement_6("ctx->c = (uint64_t)a >= (uint64_t)b + !ci; "@ + ("ctx->v = ((a ^ b) & (a ^ r)) >> 31; "@ + ("}\n"@ + (Seq::<char>::empty()))));
    lemma_statement_7("ctx->z = r == 0; "@ + ("ctx->c = (uint64_t)a >= (uint64_t)b + !ci; "@ + ("ctx->v = ((a ^ b) & (a ^ r)) >> 31; "@ + ("}\n"@ + (Seq::<char>::empty())))));
    lemma_statement_12(rd, "ctx->n = r >> 31; "@ + ("ctx->z = r == 0; "@ + ("ctx->c = (uint64_t)a >= (uint64_t)b + !ci; "@ + ("ctx->v = ((a ^ b) & (a ^ r)) >> 31; "@ + ("}\n"@ + (Seq::<char>::empty()))))));
    lemma_statement_29("ctx->r["@ + (text::dec(rd) + ("] = r; "@ + ("ctx->n = r >> 31; "@ + ("ctx->z = r == 0; "@ + ("ctx->c = (uint64_t)a >= (uint64_t)b + !ci; "@ + ("ctx->v = ((a ^ b) & (a ^ r)) >> 31; "@ + ("}\n"@ + (Seq::<char>::empty())))))))));
    lemma_statement_27("r = a - b - !ci; "@ + ("ctx->r["@ + (text::dec(rd) + ("] = r; "@ + ("ctx->n = r >> 31; "@ + ("ctx->z = r == 0; "@ + ("ctx->c = (uint64_t)a >= (uint64_t)b + !ci; "@ + ("ctx->v = ((a ^ b) & (a ^ r)) >> 31; "@ + ("}\n"@ + (Seq::<char>::empty()))))))))));
    lemma_statement_19(rd, rs, "uint8_t ci = ctx->c; "@ + ("r = a - b - !ci; "@ + ("ctx->r["@ + (text::dec(rd) + ("] = r; "@ + ("ctx->n = r >> 31; "@ + ("ctx->z = r == 0; "@ + ("ctx->c = (uint64_t)a >= (uint64_t)b + !ci; "@ + ("ctx->v = ((a ^ b) & (a ^ r)) >> 31; "@ + ("}\n"@ + (Seq::<char>::empty())))))))))));
    lemma_statement_9("uint32_t a = ctx->r["@ + (text::dec(rd) + ("], b = ctx->r["@ + (text::dec(rs) + ("], r; "@ + ("uint8_t ci = ctx->c; "@ + ("r = a - b - !ci; "@ + ("ctx->r["@ + (text::dec(rd) + ("] = r; "@ + ("ctx->n = r >> 31; "@ + ("ctx->z = r == 0; "@ + ("ctx->c = (uint64_t)a >= (uint64_t)b + !ci; "@ + ("ctx->v = ((a ^ b) & (a ^ r)) >> 31; "@ + ("}\n"@ + (Seq::<char>::empty()))))))))))))))));
    assert(lower::NZ@ == "ctx->n = r >> 31; ctx->z = r == 0;"@);
    lemma_text_17(text::dec(rd), lower::NZ@, " }"@ + ("\n"@ + Seq::<char>::empty()));
    lemma_text_9(text::dec(rd), text::dec(rs), text::fill("uint8_t ci = ctx->c; r = a - b - !ci; ctx->r[{}] = r; {} ctx->c = (uint64_t)a >= (uint64_t)b + !ci; ctx->v = ((a ^ b) & (a ^ r)) >> 31;"@, seq![text::dec(rd), lower::NZ@]), "\n"@ + Seq::<char>::empty());
    lemma_letters_23(Seq::<char>::empty());
    lemma_letters_24(text::dec(rd) + ("] = r; "@ + ("ctx->n = r >> 31; ctx->z = r == 0;"@ + (" ctx->c = (uint64_t)a >= (uint64_t)b + !ci; ctx->v = ((a ^ b) & (a ^ r)) >> 31;"@ + (" }"@ + ("\n"@ + (Seq::<char>::empty())))))));
    lemma_letters_3(text::dec(rd) + ("], b = ctx->r["@ + (text::dec(rs) + ("], r; "@ + ("uint8_t ci = ctx->c; r = a - b - !ci; ctx->r["@ + (text::dec(rd) + ("] = r; "@ + ("ctx->n = r >> 31; ctx->z = r == 0;"@ + (" ctx->c = (uint64_t)a >= (uint64_t)b + !ci; ctx->v = ((a ^ b) & (a ^ r)) >> 31;"@ + (" }"@ + ("\n"@ + (Seq::<char>::empty()))))))))))));
    reveal_strlit("\n");
    assert(text::fill("    { uint32_t a = ctx->r[{}], b = ctx->r[{}], r; {} }"@, seq![text::dec(rd), text::dec(rs), text::fill("uint8_t ci = ctx->c; r = a - b - !ci; ctx->r[{}] = r; {} ctx->c = (uint64_t)a >= (uint64_t)b + !ci; ctx->v = ((a ^ b) & (a ^ r)) >> 31;"@, seq![text::dec(rd), lower::NZ@])]).push('\n') =~= text::fill("    { uint32_t a = ctx->r[{}], b = ctx->r[{}], r; {} }"@, seq![text::dec(rd), text::dec(rs), text::fill("uint8_t ci = ctx->c; r = a - b - !ci; ctx->r[{}] = r; {} ctx->c = (uint64_t)a >= (uint64_t)b + !ci; ctx->v = ((a ^ b) & (a ^ r)) >> 31;"@, seq![text::dec(rd), lower::NZ@])]) + ("\n"@ + Seq::<char>::empty()));
    assert(alu_sbc_line(rd, rs).text() == text::fill("    { uint32_t a = ctx->r[{}], b = ctx->r[{}], r; {} }"@, seq![text::dec(rd), text::dec(rs), text::fill("uint8_t ci = ctx->c; r = a - b - !ci; ctx->r[{}] = r; {} ctx->c = (uint64_t)a >= (uint64_t)b + !ci; ctx->v = ((a ^ b) & (a ^ r)) >> 31;"@, seq![text::dec(rd), lower::NZ@])]).push('\n'));
}

#[verifier::rlimit(60)]
proof fn lemma_statement_30(rest: Seq<char>)
    ensures
        Layout::Middle.around(Statement::Assign(Place::Field(Field::V), Expression::Two(Operator::Right, Box::new(Expression::Group(Box::new(Expression::Two(Operator::And, Box::new(Expression::Local(Name::B)), Box::new(Expression::Local(Name::R)))))), Box::new(Expression::Int(31)))).text()) + rest == "ctx->v = (b & r) >> 31; "@ + (rest),
        Statement::Assign(Place::Field(Field::V), Expression::Two(Operator::Right, Box::new(Expression::Group(Box::new(Expression::Two(Operator::And, Box::new(Expression::Local(Name::B)), Box::new(Expression::Local(Name::R)))))), Box::new(Expression::Int(31)))).grouped(),
{
    reveal_strlit(" ");
    reveal_strlit(" & ");
    reveal_strlit(" = ");
    reveal_strlit(" >> ");
    reveal_strlit("(");
    reveal_strlit(")");
    reveal_strlit("31");
    reveal_strlit(";");
    reveal_strlit("b");
    reveal_strlit("ctx->v");
    reveal_strlit("ctx->v = (b & r) >> 31; ");
    reveal_strlit("r");
    small_c::lemma_numbers();
    reveal(Statement::text);
    reveal(Statement::grouped);
    reveal_with_fuel(Expression::text, 5);
    reveal_with_fuel(Expression::grouped, 5);
    assert(Layout::Middle.around(Statement::Assign(Place::Field(Field::V), Expression::Two(Operator::Right, Box::new(Expression::Group(Box::new(Expression::Two(Operator::And, Box::new(Expression::Local(Name::B)), Box::new(Expression::Local(Name::R)))))), Box::new(Expression::Int(31)))).text()) + rest =~= "ctx->v = (b & r) >> 31; "@ + (rest));
}

proof fn lemma_statement_31(rest: Seq<char>)
    ensures
        Layout::Middle.around(Statement::Assign(Place::Field(Field::C), Expression::Two(Operator::Equal, Box::new(Expression::Local(Name::B)), Box::new(Expression::Int(0)))).text()) + rest == "ctx->c = b == 0; "@ + (rest),
        Statement::Assign(Place::Field(Field::C), Expression::Two(Operator::Equal, Box::new(Expression::Local(Name::B)), Box::new(Expression::Int(0)))).grouped(),
{
    reveal_strlit(" ");
    reveal_strlit(" = ");
    reveal_strlit(" == ");
    reveal_strlit("0");
    reveal_strlit(";");
    reveal_strlit("b");
    reveal_strlit("ctx->c");
    reveal_strlit("ctx->c = b == 0; ");
    small_c::lemma_numbers();
    reveal(Statement::text);
    reveal(Statement::grouped);
    reveal_with_fuel(Expression::text, 3);
    reveal_with_fuel(Expression::grouped, 3);
    assert(Layout::Middle.around(Statement::Assign(Place::Field(Field::C), Expression::Two(Operator::Equal, Box::new(Expression::Local(Name::B)), Box::new(Expression::Int(0)))).text()) + rest =~= "ctx->c = b == 0; "@ + (rest));
}

proof fn lemma_statement_32(rest: Seq<char>)
    ensures
        Layout::Middle.around(Statement::Assign(Place::Local(Name::R), Expression::Two(Operator::Minus, Box::new(Expression::Int(0)), Box::new(Expression::Local(Name::B)))).text()) + rest == "r = 0 - b; "@ + (rest),
        Statement::Assign(Place::Local(Name::R), Expression::Two(Operator::Minus, Box::new(Expression::Int(0)), Box::new(Expression::Local(Name::B)))).grouped(),
{
    reveal_strlit(" ");
    reveal_strlit(" - ");
    reveal_strlit(" = ");
    reveal_strlit("0");
    reveal_strlit(";");
    reveal_strlit("b");
    reveal_strlit("r");
    reveal_strlit("r = 0 - b; ");
    small_c::lemma_numbers();
    reveal(Statement::text);
    reveal(Statement::grouped);
    reveal_with_fuel(Expression::text, 3);
    reveal_with_fuel(Expression::grouped, 3);
    assert(Layout::Middle.around(Statement::Assign(Place::Local(Name::R), Expression::Two(Operator::Minus, Box::new(Expression::Int(0)), Box::new(Expression::Local(Name::B)))).text()) + rest =~= "r = 0 - b; "@ + (rest));
}

proof fn lemma_text_18(x0: Seq<char>, x1: Seq<char>, rest: Seq<char>)
    ensures
        text::fill("r = 0 - b; ctx->r[{}] = r; {} ctx->c = b == 0; ctx->v = (b & r) >> 31;"@, seq![x0, x1]) + rest == "r = 0 - b; ctx->r["@ + (x0 + ("] = r; "@ + (x1 + (" ctx->c = b == 0; ctx->v = (b & r) >> 31;"@ + (rest))))),
{
    reveal_strlit("r = 0 - b; ctx->r[{}] = r; {} ctx->c = b == 0; ctx->v = (b & r) >> 31;");
    reveal_strlit("{}");
    reveal_strlit("r = 0 - b; ctx->r[");
    reveal_strlit("] = r; ");
    reveal_strlit(" ctx->c = b == 0; ctx->v = (b & r) >> 31;");
    assert("r = 0 - b; ctx->r[{}] = r; {} ctx->c = b == 0; ctx->v = (b & r) >> 31;"@ =~= "r = 0 - b; ctx->r["@ + "{}"@ + ("] = r; "@ + "{}"@ + (" ctx->c = b == 0; ctx->v = (b & r) >> 31;"@)));
    let args_0 = seq![x0, x1];
    let args_1 = seq![x1];
    let args_2 = Seq::<Seq<char>>::empty();
    assert(args_0.skip(1) =~= args_1);
    assert(args_1.skip(1) =~= args_2);
    lemma_hole("r = 0 - b; ctx->r["@, "] = r; "@ + "{}"@ + (" ctx->c = b == 0; ctx->v = (b & r) >> 31;"@), args_0);
    lemma_hole("] = r; "@, " ctx->c = b == 0; ctx->v = (b & r) >> 31;"@, args_1);
    lemma_plain(" ctx->c = b == 0; ctx->v = (b & r) >> 31;"@);
    assert(text::fill("r = 0 - b; ctx->r[{}] = r; {} ctx->c = b == 0; ctx->v = (b & r) >> 31;"@, seq![x0, x1]) + rest =~= "r = 0 - b; ctx->r["@ + (x0 + ("] = r; "@ + (x1 + (" ctx->c = b == 0; ctx->v = (b & r) >> 31;"@ + (rest))))));
}

proof fn lemma_letters_25(rest: Seq<char>)
    ensures
        "] = r; "@ + ("ctx->n = r >> 31; "@ + ("ctx->z = r == 0; "@ + ("ctx->c = b == 0; "@ + ("ctx->v = (b & r) >> 31; "@ + ("}\n"@ + (rest)))))) == "] = r; "@ + ("ctx->n = r >> 31; ctx->z = r == 0;"@ + (" ctx->c = b == 0; ctx->v = (b & r) >> 31;"@ + (" }"@ + ("\n"@ + (rest))))),
{
    reveal_strlit("] = r; ");
    reveal_strlit("ctx->n = r >> 31; ");
    reveal_strlit("ctx->z = r == 0; ");
    reveal_strlit("ctx->c = b == 0; ");
    reveal_strlit("ctx->v = (b & r) >> 31; ");
    reveal_strlit("}\n");
    reveal_strlit("ctx->n = r >> 31; ctx->z = r == 0;");
    reveal_strlit(" ctx->c = b == 0; ctx->v = (b & r) >> 31;");
    reveal_strlit(" }");
    reveal_strlit("\n");
    assert("] = r; "@ + ("ctx->n = r >> 31; "@ + ("ctx->z = r == 0; "@ + ("ctx->c = b == 0; "@ + ("ctx->v = (b & r) >> 31; "@ + ("}\n"@ + (rest)))))) =~= "] = r; "@ + ("ctx->n = r >> 31; ctx->z = r == 0;"@ + (" ctx->c = b == 0; ctx->v = (b & r) >> 31;"@ + (" }"@ + ("\n"@ + (rest))))));
}

proof fn lemma_letters_26(rest: Seq<char>)
    ensures
        "], r; "@ + ("r = 0 - b; "@ + ("ctx->r["@ + (rest))) == "], r; "@ + ("r = 0 - b; ctx->r["@ + (rest)),
{
    reveal_strlit("], r; ");
    reveal_strlit("r = 0 - b; ");
    reveal_strlit("ctx->r[");
    reveal_strlit("r = 0 - b; ctx->r[");
    assert("], r; "@ + ("r = 0 - b; "@ + ("ctx->r["@ + (rest))) =~= "], r; "@ + ("r = 0 - b; ctx->r["@ + (rest)));
}

pub open spec fn alu_neg_line(rd: nat, rs: nat) -> Program {
    Program::Then(
        Layout::First,
        Statement::Open,
        Box::new(Program::Then(
        Layout::Middle,
        Statement::Declare(Type::U32, Declared::More(Name::A, Expression::Register(rd), Box::new(Declared::More(Name::B, Expression::Register(rs), Box::new(Declared::Bare(Name::R)))))),
        Box::new(Program::Then(
        Layout::Middle,
        Statement::Assign(Place::Local(Name::R), Expression::Two(Operator::Minus, Box::new(Expression::Int(0)), Box::new(Expression::Local(Name::B)))),
        Box::new(Program::Then(
        Layout::Middle,
        Statement::Assign(Place::Register(rd), Expression::Local(Name::R)),
        Box::new(Program::Then(
        Layout::Middle,
        Statement::Assign(Place::Field(Field::N), Expression::Two(Operator::Right, Box::new(Expression::Local(Name::R)), Box::new(Expression::Int(31)))),
        Box::new(Program::Then(
        Layout::Middle,
        Statement::Assign(Place::Field(Field::Z), Expression::Two(Operator::Equal, Box::new(Expression::Local(Name::R)), Box::new(Expression::Int(0)))),
        Box::new(Program::Then(
        Layout::Middle,
        Statement::Assign(Place::Field(Field::C), Expression::Two(Operator::Equal, Box::new(Expression::Local(Name::B)), Box::new(Expression::Int(0)))),
        Box::new(Program::Then(
        Layout::Middle,
        Statement::Assign(Place::Field(Field::V), Expression::Two(Operator::Right, Box::new(Expression::Group(Box::new(Expression::Two(Operator::And, Box::new(Expression::Local(Name::B)), Box::new(Expression::Local(Name::R)))))), Box::new(Expression::Int(31)))),
        Box::new(Program::Then(
        Layout::Last,
        Statement::Close,
        Box::new(Program::End),
    )),
    )),
    )),
    )),
    )),
    )),
    )),
    )),
    )
}

pub proof fn lemma_alu_neg_line(rd: nat, rs: nat)
    ensures
        alu_neg_line(rd, rs).text() == text::fill("    { uint32_t a = ctx->r[{}], b = ctx->r[{}], r; {} }"@, seq![text::dec(rd), text::dec(rs), text::fill("r = 0 - b; ctx->r[{}] = r; {} ctx->c = b == 0; ctx->v = (b & r) >> 31;"@, seq![text::dec(rd), lower::NZ@])]).push('\n'),
        alu_neg_line(rd, rs).grouped(),
{
    reveal_with_fuel(Program::text, 10);
    reveal_with_fuel(Program::grouped, 10);
    lemma_statement_3(Seq::<char>::empty());
    lemma_statement_30("}\n"@ + (Seq::<char>::empty()));
    lemma_statement_31("ctx->v = (b & r) >> 31; "@ + ("}\n"@ + (Seq::<char>::empty())));
    lemma_statement_6("ctx->c = b == 0; "@ + ("ctx->v = (b & r) >> 31; "@ + ("}\n"@ + (Seq::<char>::empty()))));
    lemma_statement_7("ctx->z = r == 0; "@ + ("ctx->c = b == 0; "@ + ("ctx->v = (b & r) >> 31; "@ + ("}\n"@ + (Seq::<char>::empty())))));
    lemma_statement_12(rd, "ctx->n = r >> 31; "@ + ("ctx->z = r == 0; "@ + ("ctx->c = b == 0; "@ + ("ctx->v = (b & r) >> 31; "@ + ("}\n"@ + (Seq::<char>::empty()))))));
    lemma_statement_32("ctx->r["@ + (text::dec(rd) + ("] = r; "@ + ("ctx->n = r >> 31; "@ + ("ctx->z = r == 0; "@ + ("ctx->c = b == 0; "@ + ("ctx->v = (b & r) >> 31; "@ + ("}\n"@ + (Seq::<char>::empty())))))))));
    lemma_statement_19(rd, rs, "r = 0 - b; "@ + ("ctx->r["@ + (text::dec(rd) + ("] = r; "@ + ("ctx->n = r >> 31; "@ + ("ctx->z = r == 0; "@ + ("ctx->c = b == 0; "@ + ("ctx->v = (b & r) >> 31; "@ + ("}\n"@ + (Seq::<char>::empty()))))))))));
    lemma_statement_9("uint32_t a = ctx->r["@ + (text::dec(rd) + ("], b = ctx->r["@ + (text::dec(rs) + ("], r; "@ + ("r = 0 - b; "@ + ("ctx->r["@ + (text::dec(rd) + ("] = r; "@ + ("ctx->n = r >> 31; "@ + ("ctx->z = r == 0; "@ + ("ctx->c = b == 0; "@ + ("ctx->v = (b & r) >> 31; "@ + ("}\n"@ + (Seq::<char>::empty())))))))))))))));
    assert(lower::NZ@ == "ctx->n = r >> 31; ctx->z = r == 0;"@);
    lemma_text_18(text::dec(rd), lower::NZ@, " }"@ + ("\n"@ + Seq::<char>::empty()));
    lemma_text_9(text::dec(rd), text::dec(rs), text::fill("r = 0 - b; ctx->r[{}] = r; {} ctx->c = b == 0; ctx->v = (b & r) >> 31;"@, seq![text::dec(rd), lower::NZ@]), "\n"@ + Seq::<char>::empty());
    lemma_letters_25(Seq::<char>::empty());
    lemma_letters_26(text::dec(rd) + ("] = r; "@ + ("ctx->n = r >> 31; ctx->z = r == 0;"@ + (" ctx->c = b == 0; ctx->v = (b & r) >> 31;"@ + (" }"@ + ("\n"@ + (Seq::<char>::empty())))))));
    lemma_letters_3(text::dec(rd) + ("], b = ctx->r["@ + (text::dec(rs) + ("], r; "@ + ("r = 0 - b; ctx->r["@ + (text::dec(rd) + ("] = r; "@ + ("ctx->n = r >> 31; ctx->z = r == 0;"@ + (" ctx->c = b == 0; ctx->v = (b & r) >> 31;"@ + (" }"@ + ("\n"@ + (Seq::<char>::empty()))))))))))));
    reveal_strlit("\n");
    assert(text::fill("    { uint32_t a = ctx->r[{}], b = ctx->r[{}], r; {} }"@, seq![text::dec(rd), text::dec(rs), text::fill("r = 0 - b; ctx->r[{}] = r; {} ctx->c = b == 0; ctx->v = (b & r) >> 31;"@, seq![text::dec(rd), lower::NZ@])]).push('\n') =~= text::fill("    { uint32_t a = ctx->r[{}], b = ctx->r[{}], r; {} }"@, seq![text::dec(rd), text::dec(rs), text::fill("r = 0 - b; ctx->r[{}] = r; {} ctx->c = b == 0; ctx->v = (b & r) >> 31;"@, seq![text::dec(rd), lower::NZ@])]) + ("\n"@ + Seq::<char>::empty()));
    assert(alu_neg_line(rd, rs).text() == text::fill("    { uint32_t a = ctx->r[{}], b = ctx->r[{}], r; {} }"@, seq![text::dec(rd), text::dec(rs), text::fill("r = 0 - b; ctx->r[{}] = r; {} ctx->c = b == 0; ctx->v = (b & r) >> 31;"@, seq![text::dec(rd), lower::NZ@])]).push('\n'));
}

proof fn lemma_statement_33(rest: Seq<char>)
    ensures
        Layout::Middle.around(Statement::Assign(Place::Field(Field::C), Expression::Local(Name::Sc)).text()) + rest == "ctx->c = sc; "@ + (rest),
        Statement::Assign(Place::Field(Field::C), Expression::Local(Name::Sc)).grouped(),
{
    reveal_strlit(" ");
    reveal_strlit(" = ");
    reveal_strlit(";");
    reveal_strlit("ctx->c");
    reveal_strlit("ctx->c = sc; ");
    reveal_strlit("sc");
    small_c::lemma_numbers();
    reveal(Statement::text);
    reveal(Statement::grouped);
    reveal_with_fuel(Expression::text, 2);
    reveal_with_fuel(Expression::grouped, 2);
    assert(Layout::Middle.around(Statement::Assign(Place::Field(Field::C), Expression::Local(Name::Sc)).text()) + rest =~= "ctx->c = sc; "@ + (rest));
}

proof fn lemma_statement_34(rest: Seq<char>)
    ensures
        Layout::Middle.around(Statement::SetShift(Name::R, Shift::Lsl, Expression::Local(Name::A), Expression::Local(Name::B)).text()) + rest == "r = shift_lsl(a, b, &sc); "@ + (rest),
        Statement::SetShift(Name::R, Shift::Lsl, Expression::Local(Name::A), Expression::Local(Name::B)).grouped(),
{
    reveal_strlit(" ");
    reveal_strlit(" = ");
    reveal_strlit(", ");
    reveal_strlit(", &sc);");
    reveal_strlit("a");
    reveal_strlit("b");
    reveal_strlit("r");
    reveal_strlit("r = shift_lsl(a, b, &sc); ");
    reveal_strlit("shift_lsl(");
    small_c::lemma_numbers();
    reveal(Statement::text);
    reveal(Statement::grouped);
    reveal_with_fuel(Expression::text, 2);
    reveal_with_fuel(Expression::grouped, 2);
    assert(Layout::Middle.around(Statement::SetShift(Name::R, Shift::Lsl, Expression::Local(Name::A), Expression::Local(Name::B)).text()) + rest =~= "r = shift_lsl(a, b, &sc); "@ + (rest));
}

proof fn lemma_statement_35(rest: Seq<char>)
    ensures
        Layout::Middle.around(Statement::Declare(Type::U8, Declared::One(Name::Sc, Expression::Field(Field::C))).text()) + rest == "uint8_t sc = ctx->c; "@ + (rest),
        Statement::Declare(Type::U8, Declared::One(Name::Sc, Expression::Field(Field::C))).grouped(),
{
    reveal_strlit(" ");
    reveal_strlit(" = ");
    reveal_strlit(";");
    reveal_strlit("ctx->c");
    reveal_strlit("sc");
    reveal_strlit("uint8_t");
    reveal_strlit("uint8_t sc = ctx->c; ");
    small_c::lemma_numbers();
    reveal(Statement::text);
    reveal(Statement::grouped);
    reveal_with_fuel(Declared::text, 2);
    reveal_with_fuel(Declared::grouped, 2);
    reveal_with_fuel(Expression::text, 2);
    reveal_with_fuel(Expression::grouped, 2);
    assert(Layout::Middle.around(Statement::Declare(Type::U8, Declared::One(Name::Sc, Expression::Field(Field::C))).text()) + rest =~= "uint8_t sc = ctx->c; "@ + (rest));
}

proof fn lemma_text_19(x0: Seq<char>, x1: Seq<char>, rest: Seq<char>)
    ensures
        text::fill("uint8_t sc = ctx->c; r = {}(a, b, &sc); ctx->r[{}] = r; ctx->n = r >> 31; ctx->z = r == 0; ctx->c = sc;"@, seq![x0, x1]) + rest == "uint8_t sc = ctx->c; r = "@ + (x0 + ("(a, b, &sc); ctx->r["@ + (x1 + ("] = r; ctx->n = r >> 31; ctx->z = r == 0; ctx->c = sc;"@ + (rest))))),
{
    reveal_strlit("uint8_t sc = ctx->c; r = {}(a, b, &sc); ctx->r[{}] = r; ctx->n = r >> 31; ctx->z = r == 0; ctx->c = sc;");
    reveal_strlit("{}");
    reveal_strlit("uint8_t sc = ctx->c; r = ");
    reveal_strlit("(a, b, &sc); ctx->r[");
    reveal_strlit("] = r; ctx->n = r >> 31; ctx->z = r == 0; ctx->c = sc;");
    assert("uint8_t sc = ctx->c; r = {}(a, b, &sc); ctx->r[{}] = r; ctx->n = r >> 31; ctx->z = r == 0; ctx->c = sc;"@ =~= "uint8_t sc = ctx->c; r = "@ + "{}"@ + ("(a, b, &sc); ctx->r["@ + "{}"@ + ("] = r; ctx->n = r >> 31; ctx->z = r == 0; ctx->c = sc;"@)));
    let args_0 = seq![x0, x1];
    let args_1 = seq![x1];
    let args_2 = Seq::<Seq<char>>::empty();
    assert(args_0.skip(1) =~= args_1);
    assert(args_1.skip(1) =~= args_2);
    lemma_hole("uint8_t sc = ctx->c; r = "@, "(a, b, &sc); ctx->r["@ + "{}"@ + ("] = r; ctx->n = r >> 31; ctx->z = r == 0; ctx->c = sc;"@), args_0);
    lemma_hole("(a, b, &sc); ctx->r["@, "] = r; ctx->n = r >> 31; ctx->z = r == 0; ctx->c = sc;"@, args_1);
    lemma_plain("] = r; ctx->n = r >> 31; ctx->z = r == 0; ctx->c = sc;"@);
    assert(text::fill("uint8_t sc = ctx->c; r = {}(a, b, &sc); ctx->r[{}] = r; ctx->n = r >> 31; ctx->z = r == 0; ctx->c = sc;"@, seq![x0, x1]) + rest =~= "uint8_t sc = ctx->c; r = "@ + (x0 + ("(a, b, &sc); ctx->r["@ + (x1 + ("] = r; ctx->n = r >> 31; ctx->z = r == 0; ctx->c = sc;"@ + (rest))))));
}

proof fn lemma_letters_27(rest: Seq<char>)
    ensures
        "] = r; "@ + ("ctx->n = r >> 31; "@ + ("ctx->z = r == 0; "@ + ("ctx->c = sc; "@ + ("}\n"@ + (rest))))) == "] = r; ctx->n = r >> 31; ctx->z = r == 0; ctx->c = sc;"@ + (" }"@ + ("\n"@ + (rest))),
{
    reveal_strlit("] = r; ");
    reveal_strlit("ctx->n = r >> 31; ");
    reveal_strlit("ctx->z = r == 0; ");
    reveal_strlit("ctx->c = sc; ");
    reveal_strlit("}\n");
    reveal_strlit("] = r; ctx->n = r >> 31; ctx->z = r == 0; ctx->c = sc;");
    reveal_strlit(" }");
    reveal_strlit("\n");
    assert("] = r; "@ + ("ctx->n = r >> 31; "@ + ("ctx->z = r == 0; "@ + ("ctx->c = sc; "@ + ("}\n"@ + (rest))))) =~= "] = r; ctx->n = r >> 31; ctx->z = r == 0; ctx->c = sc;"@ + (" }"@ + ("\n"@ + (rest))));
}

proof fn lemma_letters_28(rest: Seq<char>)
    ensures
        "], r; "@ + ("uint8_t sc = ctx->c; "@ + ("r = shift_lsl(a, b, &sc); "@ + ("ctx->r["@ + (rest)))) == "], r; "@ + ("uint8_t sc = ctx->c; r = "@ + ("shift_lsl"@ + ("(a, b, &sc); ctx->r["@ + (rest)))),
{
    reveal_strlit("], r; ");
    reveal_strlit("uint8_t sc = ctx->c; ");
    reveal_strlit("r = shift_lsl(a, b, &sc); ");
    reveal_strlit("ctx->r[");
    reveal_strlit("uint8_t sc = ctx->c; r = ");
    reveal_strlit("shift_lsl");
    reveal_strlit("(a, b, &sc); ctx->r[");
    assert("], r; "@ + ("uint8_t sc = ctx->c; "@ + ("r = shift_lsl(a, b, &sc); "@ + ("ctx->r["@ + (rest)))) =~= "], r; "@ + ("uint8_t sc = ctx->c; r = "@ + ("shift_lsl"@ + ("(a, b, &sc); ctx->r["@ + (rest)))));
}

pub open spec fn alu_lsl_line(rd: nat, rs: nat) -> Program {
    Program::Then(
        Layout::First,
        Statement::Open,
        Box::new(Program::Then(
        Layout::Middle,
        Statement::Declare(Type::U32, Declared::More(Name::A, Expression::Register(rd), Box::new(Declared::More(Name::B, Expression::Register(rs), Box::new(Declared::Bare(Name::R)))))),
        Box::new(Program::Then(
        Layout::Middle,
        Statement::Declare(Type::U8, Declared::One(Name::Sc, Expression::Field(Field::C))),
        Box::new(Program::Then(
        Layout::Middle,
        Statement::SetShift(Name::R, Shift::Lsl, Expression::Local(Name::A), Expression::Local(Name::B)),
        Box::new(Program::Then(
        Layout::Middle,
        Statement::Assign(Place::Register(rd), Expression::Local(Name::R)),
        Box::new(Program::Then(
        Layout::Middle,
        Statement::Assign(Place::Field(Field::N), Expression::Two(Operator::Right, Box::new(Expression::Local(Name::R)), Box::new(Expression::Int(31)))),
        Box::new(Program::Then(
        Layout::Middle,
        Statement::Assign(Place::Field(Field::Z), Expression::Two(Operator::Equal, Box::new(Expression::Local(Name::R)), Box::new(Expression::Int(0)))),
        Box::new(Program::Then(
        Layout::Middle,
        Statement::Assign(Place::Field(Field::C), Expression::Local(Name::Sc)),
        Box::new(Program::Then(
        Layout::Last,
        Statement::Close,
        Box::new(Program::End),
    )),
    )),
    )),
    )),
    )),
    )),
    )),
    )),
    )
}

pub proof fn lemma_alu_lsl_line(rd: nat, rs: nat)
    ensures
        alu_lsl_line(rd, rs).text() == text::fill("    { uint32_t a = ctx->r[{}], b = ctx->r[{}], r; {} }"@, seq![text::dec(rd), text::dec(rs), text::fill("uint8_t sc = ctx->c; r = {}(a, b, &sc); ctx->r[{}] = r; ctx->n = r >> 31; ctx->z = r == 0; ctx->c = sc;"@, seq!["shift_lsl"@, text::dec(rd)])]).push('\n'),
        alu_lsl_line(rd, rs).grouped(),
{
    reveal_with_fuel(Program::text, 10);
    reveal_with_fuel(Program::grouped, 10);
    lemma_statement_3(Seq::<char>::empty());
    lemma_statement_33("}\n"@ + (Seq::<char>::empty()));
    lemma_statement_6("ctx->c = sc; "@ + ("}\n"@ + (Seq::<char>::empty())));
    lemma_statement_7("ctx->z = r == 0; "@ + ("ctx->c = sc; "@ + ("}\n"@ + (Seq::<char>::empty()))));
    lemma_statement_12(rd, "ctx->n = r >> 31; "@ + ("ctx->z = r == 0; "@ + ("ctx->c = sc; "@ + ("}\n"@ + (Seq::<char>::empty())))));
    lemma_statement_34("ctx->r["@ + (text::dec(rd) + ("] = r; "@ + ("ctx->n = r >> 31; "@ + ("ctx->z = r == 0; "@ + ("ctx->c = sc; "@ + ("}\n"@ + (Seq::<char>::empty()))))))));
    lemma_statement_35("r = shift_lsl(a, b, &sc); "@ + ("ctx->r["@ + (text::dec(rd) + ("] = r; "@ + ("ctx->n = r >> 31; "@ + ("ctx->z = r == 0; "@ + ("ctx->c = sc; "@ + ("}\n"@ + (Seq::<char>::empty())))))))));
    lemma_statement_19(rd, rs, "uint8_t sc = ctx->c; "@ + ("r = shift_lsl(a, b, &sc); "@ + ("ctx->r["@ + (text::dec(rd) + ("] = r; "@ + ("ctx->n = r >> 31; "@ + ("ctx->z = r == 0; "@ + ("ctx->c = sc; "@ + ("}\n"@ + (Seq::<char>::empty()))))))))));
    lemma_statement_9("uint32_t a = ctx->r["@ + (text::dec(rd) + ("], b = ctx->r["@ + (text::dec(rs) + ("], r; "@ + ("uint8_t sc = ctx->c; "@ + ("r = shift_lsl(a, b, &sc); "@ + ("ctx->r["@ + (text::dec(rd) + ("] = r; "@ + ("ctx->n = r >> 31; "@ + ("ctx->z = r == 0; "@ + ("ctx->c = sc; "@ + ("}\n"@ + (Seq::<char>::empty())))))))))))))));
    assert("shift_lsl"@ == "shift_lsl"@);
    lemma_text_19("shift_lsl"@, text::dec(rd), " }"@ + ("\n"@ + Seq::<char>::empty()));
    lemma_text_9(text::dec(rd), text::dec(rs), text::fill("uint8_t sc = ctx->c; r = {}(a, b, &sc); ctx->r[{}] = r; ctx->n = r >> 31; ctx->z = r == 0; ctx->c = sc;"@, seq!["shift_lsl"@, text::dec(rd)]), "\n"@ + Seq::<char>::empty());
    lemma_letters_27(Seq::<char>::empty());
    lemma_letters_28(text::dec(rd) + ("] = r; ctx->n = r >> 31; ctx->z = r == 0; ctx->c = sc;"@ + (" }"@ + ("\n"@ + (Seq::<char>::empty())))));
    lemma_letters_3(text::dec(rd) + ("], b = ctx->r["@ + (text::dec(rs) + ("], r; "@ + ("uint8_t sc = ctx->c; r = "@ + ("shift_lsl"@ + ("(a, b, &sc); ctx->r["@ + (text::dec(rd) + ("] = r; ctx->n = r >> 31; ctx->z = r == 0; ctx->c = sc;"@ + (" }"@ + ("\n"@ + (Seq::<char>::empty()))))))))))));
    reveal_strlit("\n");
    assert(text::fill("    { uint32_t a = ctx->r[{}], b = ctx->r[{}], r; {} }"@, seq![text::dec(rd), text::dec(rs), text::fill("uint8_t sc = ctx->c; r = {}(a, b, &sc); ctx->r[{}] = r; ctx->n = r >> 31; ctx->z = r == 0; ctx->c = sc;"@, seq!["shift_lsl"@, text::dec(rd)])]).push('\n') =~= text::fill("    { uint32_t a = ctx->r[{}], b = ctx->r[{}], r; {} }"@, seq![text::dec(rd), text::dec(rs), text::fill("uint8_t sc = ctx->c; r = {}(a, b, &sc); ctx->r[{}] = r; ctx->n = r >> 31; ctx->z = r == 0; ctx->c = sc;"@, seq!["shift_lsl"@, text::dec(rd)])]) + ("\n"@ + Seq::<char>::empty()));
    assert(alu_lsl_line(rd, rs).text() == text::fill("    { uint32_t a = ctx->r[{}], b = ctx->r[{}], r; {} }"@, seq![text::dec(rd), text::dec(rs), text::fill("uint8_t sc = ctx->c; r = {}(a, b, &sc); ctx->r[{}] = r; ctx->n = r >> 31; ctx->z = r == 0; ctx->c = sc;"@, seq!["shift_lsl"@, text::dec(rd)])]).push('\n'));
}

proof fn lemma_statement_36(rest: Seq<char>)
    ensures
        Layout::Middle.around(Statement::SetShift(Name::R, Shift::Lsr, Expression::Local(Name::A), Expression::Local(Name::B)).text()) + rest == "r = shift_lsr(a, b, &sc); "@ + (rest),
        Statement::SetShift(Name::R, Shift::Lsr, Expression::Local(Name::A), Expression::Local(Name::B)).grouped(),
{
    reveal_strlit(" ");
    reveal_strlit(" = ");
    reveal_strlit(", ");
    reveal_strlit(", &sc);");
    reveal_strlit("a");
    reveal_strlit("b");
    reveal_strlit("r");
    reveal_strlit("r = shift_lsr(a, b, &sc); ");
    reveal_strlit("shift_lsr(");
    small_c::lemma_numbers();
    reveal(Statement::text);
    reveal(Statement::grouped);
    reveal_with_fuel(Expression::text, 2);
    reveal_with_fuel(Expression::grouped, 2);
    assert(Layout::Middle.around(Statement::SetShift(Name::R, Shift::Lsr, Expression::Local(Name::A), Expression::Local(Name::B)).text()) + rest =~= "r = shift_lsr(a, b, &sc); "@ + (rest));
}

proof fn lemma_letters_29(rest: Seq<char>)
    ensures
        "], r; "@ + ("uint8_t sc = ctx->c; "@ + ("r = shift_lsr(a, b, &sc); "@ + ("ctx->r["@ + (rest)))) == "], r; "@ + ("uint8_t sc = ctx->c; r = "@ + ("shift_lsr"@ + ("(a, b, &sc); ctx->r["@ + (rest)))),
{
    reveal_strlit("], r; ");
    reveal_strlit("uint8_t sc = ctx->c; ");
    reveal_strlit("r = shift_lsr(a, b, &sc); ");
    reveal_strlit("ctx->r[");
    reveal_strlit("uint8_t sc = ctx->c; r = ");
    reveal_strlit("shift_lsr");
    reveal_strlit("(a, b, &sc); ctx->r[");
    assert("], r; "@ + ("uint8_t sc = ctx->c; "@ + ("r = shift_lsr(a, b, &sc); "@ + ("ctx->r["@ + (rest)))) =~= "], r; "@ + ("uint8_t sc = ctx->c; r = "@ + ("shift_lsr"@ + ("(a, b, &sc); ctx->r["@ + (rest)))));
}

pub open spec fn alu_lsr_line(rd: nat, rs: nat) -> Program {
    Program::Then(
        Layout::First,
        Statement::Open,
        Box::new(Program::Then(
        Layout::Middle,
        Statement::Declare(Type::U32, Declared::More(Name::A, Expression::Register(rd), Box::new(Declared::More(Name::B, Expression::Register(rs), Box::new(Declared::Bare(Name::R)))))),
        Box::new(Program::Then(
        Layout::Middle,
        Statement::Declare(Type::U8, Declared::One(Name::Sc, Expression::Field(Field::C))),
        Box::new(Program::Then(
        Layout::Middle,
        Statement::SetShift(Name::R, Shift::Lsr, Expression::Local(Name::A), Expression::Local(Name::B)),
        Box::new(Program::Then(
        Layout::Middle,
        Statement::Assign(Place::Register(rd), Expression::Local(Name::R)),
        Box::new(Program::Then(
        Layout::Middle,
        Statement::Assign(Place::Field(Field::N), Expression::Two(Operator::Right, Box::new(Expression::Local(Name::R)), Box::new(Expression::Int(31)))),
        Box::new(Program::Then(
        Layout::Middle,
        Statement::Assign(Place::Field(Field::Z), Expression::Two(Operator::Equal, Box::new(Expression::Local(Name::R)), Box::new(Expression::Int(0)))),
        Box::new(Program::Then(
        Layout::Middle,
        Statement::Assign(Place::Field(Field::C), Expression::Local(Name::Sc)),
        Box::new(Program::Then(
        Layout::Last,
        Statement::Close,
        Box::new(Program::End),
    )),
    )),
    )),
    )),
    )),
    )),
    )),
    )),
    )
}

pub proof fn lemma_alu_lsr_line(rd: nat, rs: nat)
    ensures
        alu_lsr_line(rd, rs).text() == text::fill("    { uint32_t a = ctx->r[{}], b = ctx->r[{}], r; {} }"@, seq![text::dec(rd), text::dec(rs), text::fill("uint8_t sc = ctx->c; r = {}(a, b, &sc); ctx->r[{}] = r; ctx->n = r >> 31; ctx->z = r == 0; ctx->c = sc;"@, seq!["shift_lsr"@, text::dec(rd)])]).push('\n'),
        alu_lsr_line(rd, rs).grouped(),
{
    reveal_with_fuel(Program::text, 10);
    reveal_with_fuel(Program::grouped, 10);
    lemma_statement_3(Seq::<char>::empty());
    lemma_statement_33("}\n"@ + (Seq::<char>::empty()));
    lemma_statement_6("ctx->c = sc; "@ + ("}\n"@ + (Seq::<char>::empty())));
    lemma_statement_7("ctx->z = r == 0; "@ + ("ctx->c = sc; "@ + ("}\n"@ + (Seq::<char>::empty()))));
    lemma_statement_12(rd, "ctx->n = r >> 31; "@ + ("ctx->z = r == 0; "@ + ("ctx->c = sc; "@ + ("}\n"@ + (Seq::<char>::empty())))));
    lemma_statement_36("ctx->r["@ + (text::dec(rd) + ("] = r; "@ + ("ctx->n = r >> 31; "@ + ("ctx->z = r == 0; "@ + ("ctx->c = sc; "@ + ("}\n"@ + (Seq::<char>::empty()))))))));
    lemma_statement_35("r = shift_lsr(a, b, &sc); "@ + ("ctx->r["@ + (text::dec(rd) + ("] = r; "@ + ("ctx->n = r >> 31; "@ + ("ctx->z = r == 0; "@ + ("ctx->c = sc; "@ + ("}\n"@ + (Seq::<char>::empty())))))))));
    lemma_statement_19(rd, rs, "uint8_t sc = ctx->c; "@ + ("r = shift_lsr(a, b, &sc); "@ + ("ctx->r["@ + (text::dec(rd) + ("] = r; "@ + ("ctx->n = r >> 31; "@ + ("ctx->z = r == 0; "@ + ("ctx->c = sc; "@ + ("}\n"@ + (Seq::<char>::empty()))))))))));
    lemma_statement_9("uint32_t a = ctx->r["@ + (text::dec(rd) + ("], b = ctx->r["@ + (text::dec(rs) + ("], r; "@ + ("uint8_t sc = ctx->c; "@ + ("r = shift_lsr(a, b, &sc); "@ + ("ctx->r["@ + (text::dec(rd) + ("] = r; "@ + ("ctx->n = r >> 31; "@ + ("ctx->z = r == 0; "@ + ("ctx->c = sc; "@ + ("}\n"@ + (Seq::<char>::empty())))))))))))))));
    assert("shift_lsr"@ == "shift_lsr"@);
    lemma_text_19("shift_lsr"@, text::dec(rd), " }"@ + ("\n"@ + Seq::<char>::empty()));
    lemma_text_9(text::dec(rd), text::dec(rs), text::fill("uint8_t sc = ctx->c; r = {}(a, b, &sc); ctx->r[{}] = r; ctx->n = r >> 31; ctx->z = r == 0; ctx->c = sc;"@, seq!["shift_lsr"@, text::dec(rd)]), "\n"@ + Seq::<char>::empty());
    lemma_letters_27(Seq::<char>::empty());
    lemma_letters_29(text::dec(rd) + ("] = r; ctx->n = r >> 31; ctx->z = r == 0; ctx->c = sc;"@ + (" }"@ + ("\n"@ + (Seq::<char>::empty())))));
    lemma_letters_3(text::dec(rd) + ("], b = ctx->r["@ + (text::dec(rs) + ("], r; "@ + ("uint8_t sc = ctx->c; r = "@ + ("shift_lsr"@ + ("(a, b, &sc); ctx->r["@ + (text::dec(rd) + ("] = r; ctx->n = r >> 31; ctx->z = r == 0; ctx->c = sc;"@ + (" }"@ + ("\n"@ + (Seq::<char>::empty()))))))))))));
    reveal_strlit("\n");
    assert(text::fill("    { uint32_t a = ctx->r[{}], b = ctx->r[{}], r; {} }"@, seq![text::dec(rd), text::dec(rs), text::fill("uint8_t sc = ctx->c; r = {}(a, b, &sc); ctx->r[{}] = r; ctx->n = r >> 31; ctx->z = r == 0; ctx->c = sc;"@, seq!["shift_lsr"@, text::dec(rd)])]).push('\n') =~= text::fill("    { uint32_t a = ctx->r[{}], b = ctx->r[{}], r; {} }"@, seq![text::dec(rd), text::dec(rs), text::fill("uint8_t sc = ctx->c; r = {}(a, b, &sc); ctx->r[{}] = r; ctx->n = r >> 31; ctx->z = r == 0; ctx->c = sc;"@, seq!["shift_lsr"@, text::dec(rd)])]) + ("\n"@ + Seq::<char>::empty()));
    assert(alu_lsr_line(rd, rs).text() == text::fill("    { uint32_t a = ctx->r[{}], b = ctx->r[{}], r; {} }"@, seq![text::dec(rd), text::dec(rs), text::fill("uint8_t sc = ctx->c; r = {}(a, b, &sc); ctx->r[{}] = r; ctx->n = r >> 31; ctx->z = r == 0; ctx->c = sc;"@, seq!["shift_lsr"@, text::dec(rd)])]).push('\n'));
}

proof fn lemma_statement_37(rest: Seq<char>)
    ensures
        Layout::Middle.around(Statement::SetShift(Name::R, Shift::Asr, Expression::Local(Name::A), Expression::Local(Name::B)).text()) + rest == "r = shift_asr(a, b, &sc); "@ + (rest),
        Statement::SetShift(Name::R, Shift::Asr, Expression::Local(Name::A), Expression::Local(Name::B)).grouped(),
{
    reveal_strlit(" ");
    reveal_strlit(" = ");
    reveal_strlit(", ");
    reveal_strlit(", &sc);");
    reveal_strlit("a");
    reveal_strlit("b");
    reveal_strlit("r");
    reveal_strlit("r = shift_asr(a, b, &sc); ");
    reveal_strlit("shift_asr(");
    small_c::lemma_numbers();
    reveal(Statement::text);
    reveal(Statement::grouped);
    reveal_with_fuel(Expression::text, 2);
    reveal_with_fuel(Expression::grouped, 2);
    assert(Layout::Middle.around(Statement::SetShift(Name::R, Shift::Asr, Expression::Local(Name::A), Expression::Local(Name::B)).text()) + rest =~= "r = shift_asr(a, b, &sc); "@ + (rest));
}

proof fn lemma_letters_30(rest: Seq<char>)
    ensures
        "], r; "@ + ("uint8_t sc = ctx->c; "@ + ("r = shift_asr(a, b, &sc); "@ + ("ctx->r["@ + (rest)))) == "], r; "@ + ("uint8_t sc = ctx->c; r = "@ + ("shift_asr"@ + ("(a, b, &sc); ctx->r["@ + (rest)))),
{
    reveal_strlit("], r; ");
    reveal_strlit("uint8_t sc = ctx->c; ");
    reveal_strlit("r = shift_asr(a, b, &sc); ");
    reveal_strlit("ctx->r[");
    reveal_strlit("uint8_t sc = ctx->c; r = ");
    reveal_strlit("shift_asr");
    reveal_strlit("(a, b, &sc); ctx->r[");
    assert("], r; "@ + ("uint8_t sc = ctx->c; "@ + ("r = shift_asr(a, b, &sc); "@ + ("ctx->r["@ + (rest)))) =~= "], r; "@ + ("uint8_t sc = ctx->c; r = "@ + ("shift_asr"@ + ("(a, b, &sc); ctx->r["@ + (rest)))));
}

pub open spec fn alu_asr_line(rd: nat, rs: nat) -> Program {
    Program::Then(
        Layout::First,
        Statement::Open,
        Box::new(Program::Then(
        Layout::Middle,
        Statement::Declare(Type::U32, Declared::More(Name::A, Expression::Register(rd), Box::new(Declared::More(Name::B, Expression::Register(rs), Box::new(Declared::Bare(Name::R)))))),
        Box::new(Program::Then(
        Layout::Middle,
        Statement::Declare(Type::U8, Declared::One(Name::Sc, Expression::Field(Field::C))),
        Box::new(Program::Then(
        Layout::Middle,
        Statement::SetShift(Name::R, Shift::Asr, Expression::Local(Name::A), Expression::Local(Name::B)),
        Box::new(Program::Then(
        Layout::Middle,
        Statement::Assign(Place::Register(rd), Expression::Local(Name::R)),
        Box::new(Program::Then(
        Layout::Middle,
        Statement::Assign(Place::Field(Field::N), Expression::Two(Operator::Right, Box::new(Expression::Local(Name::R)), Box::new(Expression::Int(31)))),
        Box::new(Program::Then(
        Layout::Middle,
        Statement::Assign(Place::Field(Field::Z), Expression::Two(Operator::Equal, Box::new(Expression::Local(Name::R)), Box::new(Expression::Int(0)))),
        Box::new(Program::Then(
        Layout::Middle,
        Statement::Assign(Place::Field(Field::C), Expression::Local(Name::Sc)),
        Box::new(Program::Then(
        Layout::Last,
        Statement::Close,
        Box::new(Program::End),
    )),
    )),
    )),
    )),
    )),
    )),
    )),
    )),
    )
}

pub proof fn lemma_alu_asr_line(rd: nat, rs: nat)
    ensures
        alu_asr_line(rd, rs).text() == text::fill("    { uint32_t a = ctx->r[{}], b = ctx->r[{}], r; {} }"@, seq![text::dec(rd), text::dec(rs), text::fill("uint8_t sc = ctx->c; r = {}(a, b, &sc); ctx->r[{}] = r; ctx->n = r >> 31; ctx->z = r == 0; ctx->c = sc;"@, seq!["shift_asr"@, text::dec(rd)])]).push('\n'),
        alu_asr_line(rd, rs).grouped(),
{
    reveal_with_fuel(Program::text, 10);
    reveal_with_fuel(Program::grouped, 10);
    lemma_statement_3(Seq::<char>::empty());
    lemma_statement_33("}\n"@ + (Seq::<char>::empty()));
    lemma_statement_6("ctx->c = sc; "@ + ("}\n"@ + (Seq::<char>::empty())));
    lemma_statement_7("ctx->z = r == 0; "@ + ("ctx->c = sc; "@ + ("}\n"@ + (Seq::<char>::empty()))));
    lemma_statement_12(rd, "ctx->n = r >> 31; "@ + ("ctx->z = r == 0; "@ + ("ctx->c = sc; "@ + ("}\n"@ + (Seq::<char>::empty())))));
    lemma_statement_37("ctx->r["@ + (text::dec(rd) + ("] = r; "@ + ("ctx->n = r >> 31; "@ + ("ctx->z = r == 0; "@ + ("ctx->c = sc; "@ + ("}\n"@ + (Seq::<char>::empty()))))))));
    lemma_statement_35("r = shift_asr(a, b, &sc); "@ + ("ctx->r["@ + (text::dec(rd) + ("] = r; "@ + ("ctx->n = r >> 31; "@ + ("ctx->z = r == 0; "@ + ("ctx->c = sc; "@ + ("}\n"@ + (Seq::<char>::empty())))))))));
    lemma_statement_19(rd, rs, "uint8_t sc = ctx->c; "@ + ("r = shift_asr(a, b, &sc); "@ + ("ctx->r["@ + (text::dec(rd) + ("] = r; "@ + ("ctx->n = r >> 31; "@ + ("ctx->z = r == 0; "@ + ("ctx->c = sc; "@ + ("}\n"@ + (Seq::<char>::empty()))))))))));
    lemma_statement_9("uint32_t a = ctx->r["@ + (text::dec(rd) + ("], b = ctx->r["@ + (text::dec(rs) + ("], r; "@ + ("uint8_t sc = ctx->c; "@ + ("r = shift_asr(a, b, &sc); "@ + ("ctx->r["@ + (text::dec(rd) + ("] = r; "@ + ("ctx->n = r >> 31; "@ + ("ctx->z = r == 0; "@ + ("ctx->c = sc; "@ + ("}\n"@ + (Seq::<char>::empty())))))))))))))));
    assert("shift_asr"@ == "shift_asr"@);
    lemma_text_19("shift_asr"@, text::dec(rd), " }"@ + ("\n"@ + Seq::<char>::empty()));
    lemma_text_9(text::dec(rd), text::dec(rs), text::fill("uint8_t sc = ctx->c; r = {}(a, b, &sc); ctx->r[{}] = r; ctx->n = r >> 31; ctx->z = r == 0; ctx->c = sc;"@, seq!["shift_asr"@, text::dec(rd)]), "\n"@ + Seq::<char>::empty());
    lemma_letters_27(Seq::<char>::empty());
    lemma_letters_30(text::dec(rd) + ("] = r; ctx->n = r >> 31; ctx->z = r == 0; ctx->c = sc;"@ + (" }"@ + ("\n"@ + (Seq::<char>::empty())))));
    lemma_letters_3(text::dec(rd) + ("], b = ctx->r["@ + (text::dec(rs) + ("], r; "@ + ("uint8_t sc = ctx->c; r = "@ + ("shift_asr"@ + ("(a, b, &sc); ctx->r["@ + (text::dec(rd) + ("] = r; ctx->n = r >> 31; ctx->z = r == 0; ctx->c = sc;"@ + (" }"@ + ("\n"@ + (Seq::<char>::empty()))))))))))));
    reveal_strlit("\n");
    assert(text::fill("    { uint32_t a = ctx->r[{}], b = ctx->r[{}], r; {} }"@, seq![text::dec(rd), text::dec(rs), text::fill("uint8_t sc = ctx->c; r = {}(a, b, &sc); ctx->r[{}] = r; ctx->n = r >> 31; ctx->z = r == 0; ctx->c = sc;"@, seq!["shift_asr"@, text::dec(rd)])]).push('\n') =~= text::fill("    { uint32_t a = ctx->r[{}], b = ctx->r[{}], r; {} }"@, seq![text::dec(rd), text::dec(rs), text::fill("uint8_t sc = ctx->c; r = {}(a, b, &sc); ctx->r[{}] = r; ctx->n = r >> 31; ctx->z = r == 0; ctx->c = sc;"@, seq!["shift_asr"@, text::dec(rd)])]) + ("\n"@ + Seq::<char>::empty()));
    assert(alu_asr_line(rd, rs).text() == text::fill("    { uint32_t a = ctx->r[{}], b = ctx->r[{}], r; {} }"@, seq![text::dec(rd), text::dec(rs), text::fill("uint8_t sc = ctx->c; r = {}(a, b, &sc); ctx->r[{}] = r; ctx->n = r >> 31; ctx->z = r == 0; ctx->c = sc;"@, seq!["shift_asr"@, text::dec(rd)])]).push('\n'));
}

proof fn lemma_statement_38(rest: Seq<char>)
    ensures
        Layout::Middle.around(Statement::SetShift(Name::R, Shift::Ror, Expression::Local(Name::A), Expression::Local(Name::B)).text()) + rest == "r = shift_ror(a, b, &sc); "@ + (rest),
        Statement::SetShift(Name::R, Shift::Ror, Expression::Local(Name::A), Expression::Local(Name::B)).grouped(),
{
    reveal_strlit(" ");
    reveal_strlit(" = ");
    reveal_strlit(", ");
    reveal_strlit(", &sc);");
    reveal_strlit("a");
    reveal_strlit("b");
    reveal_strlit("r");
    reveal_strlit("r = shift_ror(a, b, &sc); ");
    reveal_strlit("shift_ror(");
    small_c::lemma_numbers();
    reveal(Statement::text);
    reveal(Statement::grouped);
    reveal_with_fuel(Expression::text, 2);
    reveal_with_fuel(Expression::grouped, 2);
    assert(Layout::Middle.around(Statement::SetShift(Name::R, Shift::Ror, Expression::Local(Name::A), Expression::Local(Name::B)).text()) + rest =~= "r = shift_ror(a, b, &sc); "@ + (rest));
}

proof fn lemma_letters_31(rest: Seq<char>)
    ensures
        "], r; "@ + ("uint8_t sc = ctx->c; "@ + ("r = shift_ror(a, b, &sc); "@ + ("ctx->r["@ + (rest)))) == "], r; "@ + ("uint8_t sc = ctx->c; r = "@ + ("shift_ror"@ + ("(a, b, &sc); ctx->r["@ + (rest)))),
{
    reveal_strlit("], r; ");
    reveal_strlit("uint8_t sc = ctx->c; ");
    reveal_strlit("r = shift_ror(a, b, &sc); ");
    reveal_strlit("ctx->r[");
    reveal_strlit("uint8_t sc = ctx->c; r = ");
    reveal_strlit("shift_ror");
    reveal_strlit("(a, b, &sc); ctx->r[");
    assert("], r; "@ + ("uint8_t sc = ctx->c; "@ + ("r = shift_ror(a, b, &sc); "@ + ("ctx->r["@ + (rest)))) =~= "], r; "@ + ("uint8_t sc = ctx->c; r = "@ + ("shift_ror"@ + ("(a, b, &sc); ctx->r["@ + (rest)))));
}

pub open spec fn alu_ror_line(rd: nat, rs: nat) -> Program {
    Program::Then(
        Layout::First,
        Statement::Open,
        Box::new(Program::Then(
        Layout::Middle,
        Statement::Declare(Type::U32, Declared::More(Name::A, Expression::Register(rd), Box::new(Declared::More(Name::B, Expression::Register(rs), Box::new(Declared::Bare(Name::R)))))),
        Box::new(Program::Then(
        Layout::Middle,
        Statement::Declare(Type::U8, Declared::One(Name::Sc, Expression::Field(Field::C))),
        Box::new(Program::Then(
        Layout::Middle,
        Statement::SetShift(Name::R, Shift::Ror, Expression::Local(Name::A), Expression::Local(Name::B)),
        Box::new(Program::Then(
        Layout::Middle,
        Statement::Assign(Place::Register(rd), Expression::Local(Name::R)),
        Box::new(Program::Then(
        Layout::Middle,
        Statement::Assign(Place::Field(Field::N), Expression::Two(Operator::Right, Box::new(Expression::Local(Name::R)), Box::new(Expression::Int(31)))),
        Box::new(Program::Then(
        Layout::Middle,
        Statement::Assign(Place::Field(Field::Z), Expression::Two(Operator::Equal, Box::new(Expression::Local(Name::R)), Box::new(Expression::Int(0)))),
        Box::new(Program::Then(
        Layout::Middle,
        Statement::Assign(Place::Field(Field::C), Expression::Local(Name::Sc)),
        Box::new(Program::Then(
        Layout::Last,
        Statement::Close,
        Box::new(Program::End),
    )),
    )),
    )),
    )),
    )),
    )),
    )),
    )),
    )
}

pub proof fn lemma_alu_ror_line(rd: nat, rs: nat)
    ensures
        alu_ror_line(rd, rs).text() == text::fill("    { uint32_t a = ctx->r[{}], b = ctx->r[{}], r; {} }"@, seq![text::dec(rd), text::dec(rs), text::fill("uint8_t sc = ctx->c; r = {}(a, b, &sc); ctx->r[{}] = r; ctx->n = r >> 31; ctx->z = r == 0; ctx->c = sc;"@, seq!["shift_ror"@, text::dec(rd)])]).push('\n'),
        alu_ror_line(rd, rs).grouped(),
{
    reveal_with_fuel(Program::text, 10);
    reveal_with_fuel(Program::grouped, 10);
    lemma_statement_3(Seq::<char>::empty());
    lemma_statement_33("}\n"@ + (Seq::<char>::empty()));
    lemma_statement_6("ctx->c = sc; "@ + ("}\n"@ + (Seq::<char>::empty())));
    lemma_statement_7("ctx->z = r == 0; "@ + ("ctx->c = sc; "@ + ("}\n"@ + (Seq::<char>::empty()))));
    lemma_statement_12(rd, "ctx->n = r >> 31; "@ + ("ctx->z = r == 0; "@ + ("ctx->c = sc; "@ + ("}\n"@ + (Seq::<char>::empty())))));
    lemma_statement_38("ctx->r["@ + (text::dec(rd) + ("] = r; "@ + ("ctx->n = r >> 31; "@ + ("ctx->z = r == 0; "@ + ("ctx->c = sc; "@ + ("}\n"@ + (Seq::<char>::empty()))))))));
    lemma_statement_35("r = shift_ror(a, b, &sc); "@ + ("ctx->r["@ + (text::dec(rd) + ("] = r; "@ + ("ctx->n = r >> 31; "@ + ("ctx->z = r == 0; "@ + ("ctx->c = sc; "@ + ("}\n"@ + (Seq::<char>::empty())))))))));
    lemma_statement_19(rd, rs, "uint8_t sc = ctx->c; "@ + ("r = shift_ror(a, b, &sc); "@ + ("ctx->r["@ + (text::dec(rd) + ("] = r; "@ + ("ctx->n = r >> 31; "@ + ("ctx->z = r == 0; "@ + ("ctx->c = sc; "@ + ("}\n"@ + (Seq::<char>::empty()))))))))));
    lemma_statement_9("uint32_t a = ctx->r["@ + (text::dec(rd) + ("], b = ctx->r["@ + (text::dec(rs) + ("], r; "@ + ("uint8_t sc = ctx->c; "@ + ("r = shift_ror(a, b, &sc); "@ + ("ctx->r["@ + (text::dec(rd) + ("] = r; "@ + ("ctx->n = r >> 31; "@ + ("ctx->z = r == 0; "@ + ("ctx->c = sc; "@ + ("}\n"@ + (Seq::<char>::empty())))))))))))))));
    assert("shift_ror"@ == "shift_ror"@);
    lemma_text_19("shift_ror"@, text::dec(rd), " }"@ + ("\n"@ + Seq::<char>::empty()));
    lemma_text_9(text::dec(rd), text::dec(rs), text::fill("uint8_t sc = ctx->c; r = {}(a, b, &sc); ctx->r[{}] = r; ctx->n = r >> 31; ctx->z = r == 0; ctx->c = sc;"@, seq!["shift_ror"@, text::dec(rd)]), "\n"@ + Seq::<char>::empty());
    lemma_letters_27(Seq::<char>::empty());
    lemma_letters_31(text::dec(rd) + ("] = r; ctx->n = r >> 31; ctx->z = r == 0; ctx->c = sc;"@ + (" }"@ + ("\n"@ + (Seq::<char>::empty())))));
    lemma_letters_3(text::dec(rd) + ("], b = ctx->r["@ + (text::dec(rs) + ("], r; "@ + ("uint8_t sc = ctx->c; r = "@ + ("shift_ror"@ + ("(a, b, &sc); ctx->r["@ + (text::dec(rd) + ("] = r; ctx->n = r >> 31; ctx->z = r == 0; ctx->c = sc;"@ + (" }"@ + ("\n"@ + (Seq::<char>::empty()))))))))))));
    reveal_strlit("\n");
    assert(text::fill("    { uint32_t a = ctx->r[{}], b = ctx->r[{}], r; {} }"@, seq![text::dec(rd), text::dec(rs), text::fill("uint8_t sc = ctx->c; r = {}(a, b, &sc); ctx->r[{}] = r; ctx->n = r >> 31; ctx->z = r == 0; ctx->c = sc;"@, seq!["shift_ror"@, text::dec(rd)])]).push('\n') =~= text::fill("    { uint32_t a = ctx->r[{}], b = ctx->r[{}], r; {} }"@, seq![text::dec(rd), text::dec(rs), text::fill("uint8_t sc = ctx->c; r = {}(a, b, &sc); ctx->r[{}] = r; ctx->n = r >> 31; ctx->z = r == 0; ctx->c = sc;"@, seq!["shift_ror"@, text::dec(rd)])]) + ("\n"@ + Seq::<char>::empty()));
    assert(alu_ror_line(rd, rs).text() == text::fill("    { uint32_t a = ctx->r[{}], b = ctx->r[{}], r; {} }"@, seq![text::dec(rd), text::dec(rs), text::fill("uint8_t sc = ctx->c; r = {}(a, b, &sc); ctx->r[{}] = r; ctx->n = r >> 31; ctx->z = r == 0; ctx->c = sc;"@, seq!["shift_ror"@, text::dec(rd)])]).push('\n'));
}

proof fn lemma_text_20(x0: Seq<char>, rest: Seq<char>)
    ensures
        text::fill("r = a & b; {}"@, seq![x0]) + rest == "r = a & b; "@ + (x0 + (rest)),
{
    reveal_strlit("r = a & b; {}");
    reveal_strlit("{}");
    reveal_strlit("r = a & b; ");
    reveal_strlit("");
    assert("r = a & b; {}"@ =~= "r = a & b; "@ + "{}"@ + (""@));
    let args_0 = seq![x0];
    let args_1 = Seq::<Seq<char>>::empty();
    assert(args_0.skip(1) =~= args_1);
    lemma_hole("r = a & b; "@, ""@, args_0);
    lemma_plain(""@);
    assert(text::fill("r = a & b; {}"@, seq![x0]) + rest =~= "r = a & b; "@ + (x0 + (rest)));
}

proof fn lemma_letters_32(rest: Seq<char>)
    ensures
        "], r; "@ + ("r = a & b; "@ + ("ctx->n = r >> 31; "@ + ("ctx->z = r == 0; "@ + ("}\n"@ + (rest))))) == "], r; "@ + ("r = a & b; "@ + ("ctx->n = r >> 31; ctx->z = r == 0;"@ + (" }"@ + ("\n"@ + (rest))))),
{
    reveal_strlit("], r; ");
    reveal_strlit("r = a & b; ");
    reveal_strlit("ctx->n = r >> 31; ");
    reveal_strlit("ctx->z = r == 0; ");
    reveal_strlit("}\n");
    reveal_strlit("ctx->n = r >> 31; ctx->z = r == 0;");
    reveal_strlit(" }");
    reveal_strlit("\n");
    assert("], r; "@ + ("r = a & b; "@ + ("ctx->n = r >> 31; "@ + ("ctx->z = r == 0; "@ + ("}\n"@ + (rest))))) =~= "], r; "@ + ("r = a & b; "@ + ("ctx->n = r >> 31; ctx->z = r == 0;"@ + (" }"@ + ("\n"@ + (rest))))));
}

pub open spec fn alu_tst_line(rd: nat, rs: nat) -> Program {
    Program::Then(
        Layout::First,
        Statement::Open,
        Box::new(Program::Then(
        Layout::Middle,
        Statement::Declare(Type::U32, Declared::More(Name::A, Expression::Register(rd), Box::new(Declared::More(Name::B, Expression::Register(rs), Box::new(Declared::Bare(Name::R)))))),
        Box::new(Program::Then(
        Layout::Middle,
        Statement::Assign(Place::Local(Name::R), Expression::Two(Operator::And, Box::new(Expression::Local(Name::A)), Box::new(Expression::Local(Name::B)))),
        Box::new(Program::Then(
        Layout::Middle,
        Statement::Assign(Place::Field(Field::N), Expression::Two(Operator::Right, Box::new(Expression::Local(Name::R)), Box::new(Expression::Int(31)))),
        Box::new(Program::Then(
        Layout::Middle,
        Statement::Assign(Place::Field(Field::Z), Expression::Two(Operator::Equal, Box::new(Expression::Local(Name::R)), Box::new(Expression::Int(0)))),
        Box::new(Program::Then(
        Layout::Last,
        Statement::Close,
        Box::new(Program::End),
    )),
    )),
    )),
    )),
    )),
    )
}

pub proof fn lemma_alu_tst_line(rd: nat, rs: nat)
    ensures
        alu_tst_line(rd, rs).text() == text::fill("    { uint32_t a = ctx->r[{}], b = ctx->r[{}], r; {} }"@, seq![text::dec(rd), text::dec(rs), text::fill("r = a & b; {}"@, seq![lower::NZ@])]).push('\n'),
        alu_tst_line(rd, rs).grouped(),
{
    reveal_with_fuel(Program::text, 7);
    reveal_with_fuel(Program::grouped, 7);
    lemma_statement_3(Seq::<char>::empty());
    lemma_statement_6("}\n"@ + (Seq::<char>::empty()));
    lemma_statement_7("ctx->z = r == 0; "@ + ("}\n"@ + (Seq::<char>::empty())));
    lemma_statement_18("ctx->n = r >> 31; "@ + ("ctx->z = r == 0; "@ + ("}\n"@ + (Seq::<char>::empty()))));
    lemma_statement_19(rd, rs, "r = a & b; "@ + ("ctx->n = r >> 31; "@ + ("ctx->z = r == 0; "@ + ("}\n"@ + (Seq::<char>::empty())))));
    lemma_statement_9("uint32_t a = ctx->r["@ + (text::dec(rd) + ("], b = ctx->r["@ + (text::dec(rs) + ("], r; "@ + ("r = a & b; "@ + ("ctx->n = r >> 31; "@ + ("ctx->z = r == 0; "@ + ("}\n"@ + (Seq::<char>::empty()))))))))));
    assert(lower::NZ@ == "ctx->n = r >> 31; ctx->z = r == 0;"@);
    lemma_text_20(lower::NZ@, " }"@ + ("\n"@ + Seq::<char>::empty()));
    lemma_text_9(text::dec(rd), text::dec(rs), text::fill("r = a & b; {}"@, seq![lower::NZ@]), "\n"@ + Seq::<char>::empty());
    lemma_letters_32(Seq::<char>::empty());
    lemma_letters_3(text::dec(rd) + ("], b = ctx->r["@ + (text::dec(rs) + ("], r; "@ + ("r = a & b; "@ + ("ctx->n = r >> 31; ctx->z = r == 0;"@ + (" }"@ + ("\n"@ + (Seq::<char>::empty())))))))));
    reveal_strlit("\n");
    assert(text::fill("    { uint32_t a = ctx->r[{}], b = ctx->r[{}], r; {} }"@, seq![text::dec(rd), text::dec(rs), text::fill("r = a & b; {}"@, seq![lower::NZ@])]).push('\n') =~= text::fill("    { uint32_t a = ctx->r[{}], b = ctx->r[{}], r; {} }"@, seq![text::dec(rd), text::dec(rs), text::fill("r = a & b; {}"@, seq![lower::NZ@])]) + ("\n"@ + Seq::<char>::empty()));
    assert(alu_tst_line(rd, rs).text() == text::fill("    { uint32_t a = ctx->r[{}], b = ctx->r[{}], r; {} }"@, seq![text::dec(rd), text::dec(rs), text::fill("r = a & b; {}"@, seq![lower::NZ@])]).push('\n'));
}

proof fn lemma_statement_39(rest: Seq<char>)
    ensures
        Layout::Middle.around(Statement::Assign(Place::Local(Name::R), Expression::Two(Operator::Minus, Box::new(Expression::Local(Name::A)), Box::new(Expression::Local(Name::B)))).text()) + rest == "r = a - b; "@ + (rest),
        Statement::Assign(Place::Local(Name::R), Expression::Two(Operator::Minus, Box::new(Expression::Local(Name::A)), Box::new(Expression::Local(Name::B)))).grouped(),
{
    reveal_strlit(" ");
    reveal_strlit(" - ");
    reveal_strlit(" = ");
    reveal_strlit(";");
    reveal_strlit("a");
    reveal_strlit("b");
    reveal_strlit("r");
    reveal_strlit("r = a - b; ");
    small_c::lemma_numbers();
    reveal(Statement::text);
    reveal(Statement::grouped);
    reveal_with_fuel(Expression::text, 3);
    reveal_with_fuel(Expression::grouped, 3);
    assert(Layout::Middle.around(Statement::Assign(Place::Local(Name::R), Expression::Two(Operator::Minus, Box::new(Expression::Local(Name::A)), Box::new(Expression::Local(Name::B)))).text()) + rest =~= "r = a - b; "@ + (rest));
}

proof fn lemma_text_21(x0: Seq<char>, rest: Seq<char>)
    ensures
        text::fill("r = a - b; {}"@, seq![x0]) + rest == "r = a - b; "@ + (x0 + (rest)),
{
    reveal_strlit("r = a - b; {}");
    reveal_strlit("{}");
    reveal_strlit("r = a - b; ");
    reveal_strlit("");
    assert("r = a - b; {}"@ =~= "r = a - b; "@ + "{}"@ + (""@));
    let args_0 = seq![x0];
    let args_1 = Seq::<Seq<char>>::empty();
    assert(args_0.skip(1) =~= args_1);
    lemma_hole("r = a - b; "@, ""@, args_0);
    lemma_plain(""@);
    assert(text::fill("r = a - b; {}"@, seq![x0]) + rest =~= "r = a - b; "@ + (x0 + (rest)));
}

proof fn lemma_letters_33(rest: Seq<char>)
    ensures
        "], r; "@ + ("r = a - b; "@ + ("ctx->n = r >> 31; "@ + ("ctx->z = r == 0; "@ + ("ctx->c = a >= b; "@ + ("ctx->v = ((a ^ b) & (a ^ r)) >> 31; "@ + ("}\n"@ + (rest))))))) == "], r; "@ + ("r = a - b; "@ + ("ctx->n = r >> 31; ctx->z = r == 0; ctx->c = a >= b; ctx->v = ((a ^ b) & (a ^ r)) >> 31;"@ + (" }"@ + ("\n"@ + (rest))))),
{
    reveal_strlit("], r; ");
    reveal_strlit("r = a - b; ");
    reveal_strlit("ctx->n = r >> 31; ");
    reveal_strlit("ctx->z = r == 0; ");
    reveal_strlit("ctx->c = a >= b; ");
    reveal_strlit("ctx->v = ((a ^ b) & (a ^ r)) >> 31; ");
    reveal_strlit("}\n");
    reveal_strlit("ctx->n = r >> 31; ctx->z = r == 0; ctx->c = a >= b; ctx->v = ((a ^ b) & (a ^ r)) >> 31;");
    reveal_strlit(" }");
    reveal_strlit("\n");
    assert("], r; "@ + ("r = a - b; "@ + ("ctx->n = r >> 31; "@ + ("ctx->z = r == 0; "@ + ("ctx->c = a >= b; "@ + ("ctx->v = ((a ^ b) & (a ^ r)) >> 31; "@ + ("}\n"@ + (rest))))))) =~= "], r; "@ + ("r = a - b; "@ + ("ctx->n = r >> 31; ctx->z = r == 0; ctx->c = a >= b; ctx->v = ((a ^ b) & (a ^ r)) >> 31;"@ + (" }"@ + ("\n"@ + (rest))))));
}

pub open spec fn alu_cmp_line(rd: nat, rs: nat) -> Program {
    Program::Then(
        Layout::First,
        Statement::Open,
        Box::new(Program::Then(
        Layout::Middle,
        Statement::Declare(Type::U32, Declared::More(Name::A, Expression::Register(rd), Box::new(Declared::More(Name::B, Expression::Register(rs), Box::new(Declared::Bare(Name::R)))))),
        Box::new(Program::Then(
        Layout::Middle,
        Statement::Assign(Place::Local(Name::R), Expression::Two(Operator::Minus, Box::new(Expression::Local(Name::A)), Box::new(Expression::Local(Name::B)))),
        Box::new(Program::Then(
        Layout::Middle,
        Statement::Assign(Place::Field(Field::N), Expression::Two(Operator::Right, Box::new(Expression::Local(Name::R)), Box::new(Expression::Int(31)))),
        Box::new(Program::Then(
        Layout::Middle,
        Statement::Assign(Place::Field(Field::Z), Expression::Two(Operator::Equal, Box::new(Expression::Local(Name::R)), Box::new(Expression::Int(0)))),
        Box::new(Program::Then(
        Layout::Middle,
        Statement::Assign(Place::Field(Field::C), Expression::Two(Operator::AtLeast, Box::new(Expression::Local(Name::A)), Box::new(Expression::Local(Name::B)))),
        Box::new(Program::Then(
        Layout::Middle,
        Statement::Assign(Place::Field(Field::V), Expression::Two(Operator::Right, Box::new(Expression::Group(Box::new(Expression::Two(Operator::And, Box::new(Expression::Group(Box::new(Expression::Two(Operator::Xor, Box::new(Expression::Local(Name::A)), Box::new(Expression::Local(Name::B)))))), Box::new(Expression::Group(Box::new(Expression::Two(Operator::Xor, Box::new(Expression::Local(Name::A)), Box::new(Expression::Local(Name::R)))))))))), Box::new(Expression::Int(31)))),
        Box::new(Program::Then(
        Layout::Last,
        Statement::Close,
        Box::new(Program::End),
    )),
    )),
    )),
    )),
    )),
    )),
    )),
    )
}

pub proof fn lemma_alu_cmp_line(rd: nat, rs: nat)
    ensures
        alu_cmp_line(rd, rs).text() == text::fill("    { uint32_t a = ctx->r[{}], b = ctx->r[{}], r; {} }"@, seq![text::dec(rd), text::dec(rs), text::fill("r = a - b; {}"@, seq![lower::SUB_FLAGS@])]).push('\n'),
        alu_cmp_line(rd, rs).grouped(),
{
    reveal_with_fuel(Program::text, 9);
    reveal_with_fuel(Program::grouped, 9);
    lemma_statement_3(Seq::<char>::empty());
    lemma_statement_4("}\n"@ + (Seq::<char>::empty()));
    lemma_statement_5("ctx->v = ((a ^ b) & (a ^ r)) >> 31; "@ + ("}\n"@ + (Seq::<char>::empty())));
    lemma_statement_6("ctx->c = a >= b; "@ + ("ctx->v = ((a ^ b) & (a ^ r)) >> 31; "@ + ("}\n"@ + (Seq::<char>::empty()))));
    lemma_statement_7("ctx->z = r == 0; "@ + ("ctx->c = a >= b; "@ + ("ctx->v = ((a ^ b) & (a ^ r)) >> 31; "@ + ("}\n"@ + (Seq::<char>::empty())))));
    lemma_statement_39("ctx->n = r >> 31; "@ + ("ctx->z = r == 0; "@ + ("ctx->c = a >= b; "@ + ("ctx->v = ((a ^ b) & (a ^ r)) >> 31; "@ + ("}\n"@ + (Seq::<char>::empty()))))));
    lemma_statement_19(rd, rs, "r = a - b; "@ + ("ctx->n = r >> 31; "@ + ("ctx->z = r == 0; "@ + ("ctx->c = a >= b; "@ + ("ctx->v = ((a ^ b) & (a ^ r)) >> 31; "@ + ("}\n"@ + (Seq::<char>::empty())))))));
    lemma_statement_9("uint32_t a = ctx->r["@ + (text::dec(rd) + ("], b = ctx->r["@ + (text::dec(rs) + ("], r; "@ + ("r = a - b; "@ + ("ctx->n = r >> 31; "@ + ("ctx->z = r == 0; "@ + ("ctx->c = a >= b; "@ + ("ctx->v = ((a ^ b) & (a ^ r)) >> 31; "@ + ("}\n"@ + (Seq::<char>::empty()))))))))))));
    assert(lower::SUB_FLAGS@ == "ctx->n = r >> 31; ctx->z = r == 0; ctx->c = a >= b; ctx->v = ((a ^ b) & (a ^ r)) >> 31;"@);
    lemma_text_21(lower::SUB_FLAGS@, " }"@ + ("\n"@ + Seq::<char>::empty()));
    lemma_text_9(text::dec(rd), text::dec(rs), text::fill("r = a - b; {}"@, seq![lower::SUB_FLAGS@]), "\n"@ + Seq::<char>::empty());
    lemma_letters_33(Seq::<char>::empty());
    lemma_letters_3(text::dec(rd) + ("], b = ctx->r["@ + (text::dec(rs) + ("], r; "@ + ("r = a - b; "@ + ("ctx->n = r >> 31; ctx->z = r == 0; ctx->c = a >= b; ctx->v = ((a ^ b) & (a ^ r)) >> 31;"@ + (" }"@ + ("\n"@ + (Seq::<char>::empty())))))))));
    reveal_strlit("\n");
    assert(text::fill("    { uint32_t a = ctx->r[{}], b = ctx->r[{}], r; {} }"@, seq![text::dec(rd), text::dec(rs), text::fill("r = a - b; {}"@, seq![lower::SUB_FLAGS@])]).push('\n') =~= text::fill("    { uint32_t a = ctx->r[{}], b = ctx->r[{}], r; {} }"@, seq![text::dec(rd), text::dec(rs), text::fill("r = a - b; {}"@, seq![lower::SUB_FLAGS@])]) + ("\n"@ + Seq::<char>::empty()));
    assert(alu_cmp_line(rd, rs).text() == text::fill("    { uint32_t a = ctx->r[{}], b = ctx->r[{}], r; {} }"@, seq![text::dec(rd), text::dec(rs), text::fill("r = a - b; {}"@, seq![lower::SUB_FLAGS@])]).push('\n'));
}

proof fn lemma_statement_40(rest: Seq<char>)
    ensures
        Layout::Middle.around(Statement::Assign(Place::Local(Name::R), Expression::Two(Operator::Plus, Box::new(Expression::Local(Name::A)), Box::new(Expression::Local(Name::B)))).text()) + rest == "r = a + b; "@ + (rest),
        Statement::Assign(Place::Local(Name::R), Expression::Two(Operator::Plus, Box::new(Expression::Local(Name::A)), Box::new(Expression::Local(Name::B)))).grouped(),
{
    reveal_strlit(" ");
    reveal_strlit(" + ");
    reveal_strlit(" = ");
    reveal_strlit(";");
    reveal_strlit("a");
    reveal_strlit("b");
    reveal_strlit("r");
    reveal_strlit("r = a + b; ");
    small_c::lemma_numbers();
    reveal(Statement::text);
    reveal(Statement::grouped);
    reveal_with_fuel(Expression::text, 3);
    reveal_with_fuel(Expression::grouped, 3);
    assert(Layout::Middle.around(Statement::Assign(Place::Local(Name::R), Expression::Two(Operator::Plus, Box::new(Expression::Local(Name::A)), Box::new(Expression::Local(Name::B)))).text()) + rest =~= "r = a + b; "@ + (rest));
}

proof fn lemma_text_22(x0: Seq<char>, rest: Seq<char>)
    ensures
        text::fill("r = a + b; {}"@, seq![x0]) + rest == "r = a + b; "@ + (x0 + (rest)),
{
    reveal_strlit("r = a + b; {}");
    reveal_strlit("{}");
    reveal_strlit("r = a + b; ");
    reveal_strlit("");
    assert("r = a + b; {}"@ =~= "r = a + b; "@ + "{}"@ + (""@));
    let args_0 = seq![x0];
    let args_1 = Seq::<Seq<char>>::empty();
    assert(args_0.skip(1) =~= args_1);
    lemma_hole("r = a + b; "@, ""@, args_0);
    lemma_plain(""@);
    assert(text::fill("r = a + b; {}"@, seq![x0]) + rest =~= "r = a + b; "@ + (x0 + (rest)));
}

proof fn lemma_letters_34(rest: Seq<char>)
    ensures
        "], r; "@ + ("r = a + b; "@ + ("ctx->n = r >> 31; "@ + ("ctx->z = r == 0; "@ + ("ctx->c = r < a; "@ + ("ctx->v = ((a ^ r) & (b ^ r)) >> 31; "@ + ("}\n"@ + (rest))))))) == "], r; "@ + ("r = a + b; "@ + ("ctx->n = r >> 31; ctx->z = r == 0; ctx->c = r < a; ctx->v = ((a ^ r) & (b ^ r)) >> 31;"@ + (" }"@ + ("\n"@ + (rest))))),
{
    reveal_strlit("], r; ");
    reveal_strlit("r = a + b; ");
    reveal_strlit("ctx->n = r >> 31; ");
    reveal_strlit("ctx->z = r == 0; ");
    reveal_strlit("ctx->c = r < a; ");
    reveal_strlit("ctx->v = ((a ^ r) & (b ^ r)) >> 31; ");
    reveal_strlit("}\n");
    reveal_strlit("ctx->n = r >> 31; ctx->z = r == 0; ctx->c = r < a; ctx->v = ((a ^ r) & (b ^ r)) >> 31;");
    reveal_strlit(" }");
    reveal_strlit("\n");
    assert("], r; "@ + ("r = a + b; "@ + ("ctx->n = r >> 31; "@ + ("ctx->z = r == 0; "@ + ("ctx->c = r < a; "@ + ("ctx->v = ((a ^ r) & (b ^ r)) >> 31; "@ + ("}\n"@ + (rest))))))) =~= "], r; "@ + ("r = a + b; "@ + ("ctx->n = r >> 31; ctx->z = r == 0; ctx->c = r < a; ctx->v = ((a ^ r) & (b ^ r)) >> 31;"@ + (" }"@ + ("\n"@ + (rest))))));
}

pub open spec fn alu_cmn_line(rd: nat, rs: nat) -> Program {
    Program::Then(
        Layout::First,
        Statement::Open,
        Box::new(Program::Then(
        Layout::Middle,
        Statement::Declare(Type::U32, Declared::More(Name::A, Expression::Register(rd), Box::new(Declared::More(Name::B, Expression::Register(rs), Box::new(Declared::Bare(Name::R)))))),
        Box::new(Program::Then(
        Layout::Middle,
        Statement::Assign(Place::Local(Name::R), Expression::Two(Operator::Plus, Box::new(Expression::Local(Name::A)), Box::new(Expression::Local(Name::B)))),
        Box::new(Program::Then(
        Layout::Middle,
        Statement::Assign(Place::Field(Field::N), Expression::Two(Operator::Right, Box::new(Expression::Local(Name::R)), Box::new(Expression::Int(31)))),
        Box::new(Program::Then(
        Layout::Middle,
        Statement::Assign(Place::Field(Field::Z), Expression::Two(Operator::Equal, Box::new(Expression::Local(Name::R)), Box::new(Expression::Int(0)))),
        Box::new(Program::Then(
        Layout::Middle,
        Statement::Assign(Place::Field(Field::C), Expression::Two(Operator::Less, Box::new(Expression::Local(Name::R)), Box::new(Expression::Local(Name::A)))),
        Box::new(Program::Then(
        Layout::Middle,
        Statement::Assign(Place::Field(Field::V), Expression::Two(Operator::Right, Box::new(Expression::Group(Box::new(Expression::Two(Operator::And, Box::new(Expression::Group(Box::new(Expression::Two(Operator::Xor, Box::new(Expression::Local(Name::A)), Box::new(Expression::Local(Name::R)))))), Box::new(Expression::Group(Box::new(Expression::Two(Operator::Xor, Box::new(Expression::Local(Name::B)), Box::new(Expression::Local(Name::R)))))))))), Box::new(Expression::Int(31)))),
        Box::new(Program::Then(
        Layout::Last,
        Statement::Close,
        Box::new(Program::End),
    )),
    )),
    )),
    )),
    )),
    )),
    )),
    )
}

pub proof fn lemma_alu_cmn_line(rd: nat, rs: nat)
    ensures
        alu_cmn_line(rd, rs).text() == text::fill("    { uint32_t a = ctx->r[{}], b = ctx->r[{}], r; {} }"@, seq![text::dec(rd), text::dec(rs), text::fill("r = a + b; {}"@, seq![lower::ADD_FLAGS@])]).push('\n'),
        alu_cmn_line(rd, rs).grouped(),
{
    reveal_with_fuel(Program::text, 9);
    reveal_with_fuel(Program::grouped, 9);
    lemma_statement_3(Seq::<char>::empty());
    lemma_statement_10("}\n"@ + (Seq::<char>::empty()));
    lemma_statement_11("ctx->v = ((a ^ r) & (b ^ r)) >> 31; "@ + ("}\n"@ + (Seq::<char>::empty())));
    lemma_statement_6("ctx->c = r < a; "@ + ("ctx->v = ((a ^ r) & (b ^ r)) >> 31; "@ + ("}\n"@ + (Seq::<char>::empty()))));
    lemma_statement_7("ctx->z = r == 0; "@ + ("ctx->c = r < a; "@ + ("ctx->v = ((a ^ r) & (b ^ r)) >> 31; "@ + ("}\n"@ + (Seq::<char>::empty())))));
    lemma_statement_40("ctx->n = r >> 31; "@ + ("ctx->z = r == 0; "@ + ("ctx->c = r < a; "@ + ("ctx->v = ((a ^ r) & (b ^ r)) >> 31; "@ + ("}\n"@ + (Seq::<char>::empty()))))));
    lemma_statement_19(rd, rs, "r = a + b; "@ + ("ctx->n = r >> 31; "@ + ("ctx->z = r == 0; "@ + ("ctx->c = r < a; "@ + ("ctx->v = ((a ^ r) & (b ^ r)) >> 31; "@ + ("}\n"@ + (Seq::<char>::empty())))))));
    lemma_statement_9("uint32_t a = ctx->r["@ + (text::dec(rd) + ("], b = ctx->r["@ + (text::dec(rs) + ("], r; "@ + ("r = a + b; "@ + ("ctx->n = r >> 31; "@ + ("ctx->z = r == 0; "@ + ("ctx->c = r < a; "@ + ("ctx->v = ((a ^ r) & (b ^ r)) >> 31; "@ + ("}\n"@ + (Seq::<char>::empty()))))))))))));
    assert(lower::ADD_FLAGS@ == "ctx->n = r >> 31; ctx->z = r == 0; ctx->c = r < a; ctx->v = ((a ^ r) & (b ^ r)) >> 31;"@);
    lemma_text_22(lower::ADD_FLAGS@, " }"@ + ("\n"@ + Seq::<char>::empty()));
    lemma_text_9(text::dec(rd), text::dec(rs), text::fill("r = a + b; {}"@, seq![lower::ADD_FLAGS@]), "\n"@ + Seq::<char>::empty());
    lemma_letters_34(Seq::<char>::empty());
    lemma_letters_3(text::dec(rd) + ("], b = ctx->r["@ + (text::dec(rs) + ("], r; "@ + ("r = a + b; "@ + ("ctx->n = r >> 31; ctx->z = r == 0; ctx->c = r < a; ctx->v = ((a ^ r) & (b ^ r)) >> 31;"@ + (" }"@ + ("\n"@ + (Seq::<char>::empty())))))))));
    reveal_strlit("\n");
    assert(text::fill("    { uint32_t a = ctx->r[{}], b = ctx->r[{}], r; {} }"@, seq![text::dec(rd), text::dec(rs), text::fill("r = a + b; {}"@, seq![lower::ADD_FLAGS@])]).push('\n') =~= text::fill("    { uint32_t a = ctx->r[{}], b = ctx->r[{}], r; {} }"@, seq![text::dec(rd), text::dec(rs), text::fill("r = a + b; {}"@, seq![lower::ADD_FLAGS@])]) + ("\n"@ + Seq::<char>::empty()));
    assert(alu_cmn_line(rd, rs).text() == text::fill("    { uint32_t a = ctx->r[{}], b = ctx->r[{}], r; {} }"@, seq![text::dec(rd), text::dec(rs), text::fill("r = a + b; {}"@, seq![lower::ADD_FLAGS@])]).push('\n'));
}

proof fn lemma_statement_41(rd: nat, x: Expression, y: Expression, rest: Seq<char>)
    requires
        x.grouped(),
        y.grouped(),
        x.strength() == 16,
        y.strength() == 16,
    ensures
        Layout::Alone.around(Statement::Assign(Place::Register(rd), Expression::Two(Operator::Plus, Box::new(x), Box::new(y))).text()) + rest == "    ctx->r["@ + (text::dec(rd) + ("] = "@ + (x.text() + (" + "@ + (y.text() + (";\n"@ + (rest))))))),
        Statement::Assign(Place::Register(rd), Expression::Two(Operator::Plus, Box::new(x), Box::new(y))).grouped(),
{
    reveal_strlit("\n");
    reveal_strlit("    ");
    reveal_strlit("    ctx->r[");
    reveal_strlit(" + ");
    reveal_strlit(" = ");
    reveal_strlit(";");
    reveal_strlit(";\n");
    reveal_strlit("]");
    reveal_strlit("] = ");
    reveal_strlit("ctx->r[");
    small_c::lemma_numbers();
    reveal(Statement::text);
    reveal(Statement::grouped);
    reveal_with_fuel(Expression::text, 2);
    reveal_with_fuel(Expression::grouped, 2);
    assert(Layout::Alone.around(Statement::Assign(Place::Register(rd), Expression::Two(Operator::Plus, Box::new(x), Box::new(y))).text()) + rest =~= "    ctx->r["@ + (text::dec(rd) + ("] = "@ + (x.text() + (" + "@ + (y.text() + (";\n"@ + (rest))))))));
}

proof fn lemma_text_23(x0: Seq<char>, x1: Seq<char>, x2: Seq<char>, rest: Seq<char>)
    ensures
        text::fill("    ctx->r[{}] = {} + {};"@, seq![x0, x1, x2]) + rest == "    ctx->r["@ + (x0 + ("] = "@ + (x1 + (" + "@ + (x2 + (";"@ + (rest))))))),
{
    reveal_strlit("    ctx->r[{}] = {} + {};");
    reveal_strlit("{}");
    reveal_strlit("    ctx->r[");
    reveal_strlit("] = ");
    reveal_strlit(" + ");
    reveal_strlit(";");
    assert("    ctx->r[{}] = {} + {};"@ =~= "    ctx->r["@ + "{}"@ + ("] = "@ + "{}"@ + (" + "@ + "{}"@ + (";"@))));
    let args_0 = seq![x0, x1, x2];
    let args_1 = seq![x1, x2];
    let args_2 = seq![x2];
    let args_3 = Seq::<Seq<char>>::empty();
    assert(args_0.skip(1) =~= args_1);
    assert(args_1.skip(1) =~= args_2);
    assert(args_2.skip(1) =~= args_3);
    lemma_hole("    ctx->r["@, "] = "@ + "{}"@ + (" + "@ + "{}"@ + (";"@)), args_0);
    lemma_hole("] = "@, " + "@ + "{}"@ + (";"@), args_1);
    lemma_hole(" + "@, ";"@, args_2);
    lemma_plain(";"@);
    assert(text::fill("    ctx->r[{}] = {} + {};"@, seq![x0, x1, x2]) + rest =~= "    ctx->r["@ + (x0 + ("] = "@ + (x1 + (" + "@ + (x2 + (";"@ + (rest))))))));
}

pub open spec fn high_add_line(rd: nat, x: Expression, y: Expression) -> Program {
    Program::Then(
        Layout::Alone,
        Statement::Assign(Place::Register(rd), Expression::Two(Operator::Plus, Box::new(x), Box::new(y))),
        Box::new(Program::End),
    )
}

pub proof fn lemma_high_add_line(rd: nat, x: Expression, y: Expression)
    requires
        x.grouped(),
        y.grouped(),
        x.strength() == 16,
        y.strength() == 16,
    ensures
        high_add_line(rd, x, y).text() == text::fill("    ctx->r[{}] = {} + {};"@, seq![text::dec(rd), x.text(), y.text()]).push('\n'),
        high_add_line(rd, x, y).grouped(),
{
    reveal_with_fuel(Program::text, 2);
    reveal_with_fuel(Program::grouped, 2);
    lemma_statement_41(rd, x, y, Seq::<char>::empty());
    lemma_text_23(text::dec(rd), x.text(), y.text(), "\n"@ + Seq::<char>::empty());
    lemma_letters_0(Seq::<char>::empty());
    reveal_strlit("\n");
    assert(text::fill("    ctx->r[{}] = {} + {};"@, seq![text::dec(rd), x.text(), y.text()]).push('\n') =~= text::fill("    ctx->r[{}] = {} + {};"@, seq![text::dec(rd), x.text(), y.text()]) + ("\n"@ + Seq::<char>::empty()));
    assert(high_add_line(rd, x, y).text() == text::fill("    ctx->r[{}] = {} + {};"@, seq![text::dec(rd), x.text(), y.text()]).push('\n'));
}

proof fn lemma_statement_42(rd: nat, x: Expression, rest: Seq<char>)
    requires
        x.grouped(),
    ensures
        Layout::Alone.around(Statement::Assign(Place::Register(rd), x).text()) + rest == "    ctx->r["@ + (text::dec(rd) + ("] = "@ + (x.text() + (";\n"@ + (rest))))),
        Statement::Assign(Place::Register(rd), x).grouped(),
{
    reveal_strlit("\n");
    reveal_strlit("    ");
    reveal_strlit("    ctx->r[");
    reveal_strlit(" = ");
    reveal_strlit(";");
    reveal_strlit(";\n");
    reveal_strlit("]");
    reveal_strlit("] = ");
    reveal_strlit("ctx->r[");
    small_c::lemma_numbers();
    reveal(Statement::text);
    reveal(Statement::grouped);
    assert(Layout::Alone.around(Statement::Assign(Place::Register(rd), x).text()) + rest =~= "    ctx->r["@ + (text::dec(rd) + ("] = "@ + (x.text() + (";\n"@ + (rest))))));
}

proof fn lemma_text_24(x0: Seq<char>, x1: Seq<char>, rest: Seq<char>)
    ensures
        text::fill("    ctx->r[{}] = {};"@, seq![x0, x1]) + rest == "    ctx->r["@ + (x0 + ("] = "@ + (x1 + (";"@ + (rest))))),
{
    reveal_strlit("    ctx->r[{}] = {};");
    reveal_strlit("{}");
    reveal_strlit("    ctx->r[");
    reveal_strlit("] = ");
    reveal_strlit(";");
    assert("    ctx->r[{}] = {};"@ =~= "    ctx->r["@ + "{}"@ + ("] = "@ + "{}"@ + (";"@)));
    let args_0 = seq![x0, x1];
    let args_1 = seq![x1];
    let args_2 = Seq::<Seq<char>>::empty();
    assert(args_0.skip(1) =~= args_1);
    assert(args_1.skip(1) =~= args_2);
    lemma_hole("    ctx->r["@, "] = "@ + "{}"@ + (";"@), args_0);
    lemma_hole("] = "@, ";"@, args_1);
    lemma_plain(";"@);
    assert(text::fill("    ctx->r[{}] = {};"@, seq![x0, x1]) + rest =~= "    ctx->r["@ + (x0 + ("] = "@ + (x1 + (";"@ + (rest))))));
}

pub open spec fn high_move_line(rd: nat, x: Expression) -> Program {
    Program::Then(
        Layout::Alone,
        Statement::Assign(Place::Register(rd), x),
        Box::new(Program::End),
    )
}

pub proof fn lemma_high_move_line(rd: nat, x: Expression)
    requires
        x.grouped(),
    ensures
        high_move_line(rd, x).text() == text::fill("    ctx->r[{}] = {};"@, seq![text::dec(rd), x.text()]).push('\n'),
        high_move_line(rd, x).grouped(),
{
    reveal_with_fuel(Program::text, 2);
    reveal_with_fuel(Program::grouped, 2);
    lemma_statement_42(rd, x, Seq::<char>::empty());
    lemma_text_24(text::dec(rd), x.text(), "\n"@ + Seq::<char>::empty());
    lemma_letters_0(Seq::<char>::empty());
    reveal_strlit("\n");
    assert(text::fill("    ctx->r[{}] = {};"@, seq![text::dec(rd), x.text()]).push('\n') =~= text::fill("    ctx->r[{}] = {};"@, seq![text::dec(rd), x.text()]) + ("\n"@ + Seq::<char>::empty()));
    assert(high_move_line(rd, x).text() == text::fill("    ctx->r[{}] = {};"@, seq![text::dec(rd), x.text()]).push('\n'));
}

proof fn lemma_statement_43(x: Expression, y: Expression, rest: Seq<char>)
    requires
        x.grouped(),
        y.grouped(),
    ensures
        Layout::Middle.around(Statement::Declare(Type::U32, Declared::More(Name::A, x, Box::new(Declared::More(Name::B, y, Box::new(Declared::One(Name::R, Expression::Two(Operator::Minus, Box::new(Expression::Local(Name::A)), Box::new(Expression::Local(Name::B))))))))).text()) + rest == "uint32_t a = "@ + (x.text() + (", b = "@ + (y.text() + (", r = a - b; "@ + (rest))))),
        Statement::Declare(Type::U32, Declared::More(Name::A, x, Box::new(Declared::More(Name::B, y, Box::new(Declared::One(Name::R, Expression::Two(Operator::Minus, Box::new(Expression::Local(Name::A)), Box::new(Expression::Local(Name::B))))))))).grouped(),
{
    reveal_strlit(" ");
    reveal_strlit(" - ");
    reveal_strlit(" = ");
    reveal_strlit(", ");
    reveal_strlit(", b = ");
    reveal_strlit(", r = a - b; ");
    reveal_strlit(";");
    reveal_strlit("a");
    reveal_strlit("b");
    reveal_strlit("r");
    reveal_strlit("uint32_t");
    reveal_strlit("uint32_t a = ");
    small_c::lemma_numbers();
    reveal(Statement::text);
    reveal(Statement::grouped);
    reveal_with_fuel(Declared::text, 4);
    reveal_with_fuel(Declared::grouped, 4);
    reveal_with_fuel(Expression::text, 3);
    reveal_with_fuel(Expression::grouped, 3);
    assert(Layout::Middle.around(Statement::Declare(Type::U32, Declared::More(Name::A, x, Box::new(Declared::More(Name::B, y, Box::new(Declared::One(Name::R, Expression::Two(Operator::Minus, Box::new(Expression::Local(Name::A)), Box::new(Expression::Local(Name::B))))))))).text()) + rest =~= "uint32_t a = "@ + (x.text() + (", b = "@ + (y.text() + (", r = a - b; "@ + (rest))))));
}

proof fn lemma_text_25(x0: Seq<char>, x1: Seq<char>, x2: Seq<char>, rest: Seq<char>)
    ensures
        text::fill("    { uint32_t a = {}, b = {}, r = a - b; {} }"@, seq![x0, x1, x2]) + rest == "    { uint32_t a = "@ + (x0 + (", b = "@ + (x1 + (", r = a - b; "@ + (x2 + (" }"@ + (rest))))))),
{
    reveal_strlit("    { uint32_t a = {}, b = {}, r = a - b; {} }");
    reveal_strlit("{}");
    reveal_strlit("    { uint32_t a = ");
    reveal_strlit(", b = ");
    reveal_strlit(", r = a - b; ");
    reveal_strlit(" }");
    assert("    { uint32_t a = {}, b = {}, r = a - b; {} }"@ =~= "    { uint32_t a = "@ + "{}"@ + (", b = "@ + "{}"@ + (", r = a - b; "@ + "{}"@ + (" }"@))));
    let args_0 = seq![x0, x1, x2];
    let args_1 = seq![x1, x2];
    let args_2 = seq![x2];
    let args_3 = Seq::<Seq<char>>::empty();
    assert(args_0.skip(1) =~= args_1);
    assert(args_1.skip(1) =~= args_2);
    assert(args_2.skip(1) =~= args_3);
    lemma_hole("    { uint32_t a = "@, ", b = "@ + "{}"@ + (", r = a - b; "@ + "{}"@ + (" }"@)), args_0);
    lemma_hole(", b = "@, ", r = a - b; "@ + "{}"@ + (" }"@), args_1);
    lemma_hole(", r = a - b; "@, " }"@, args_2);
    lemma_plain(" }"@);
    assert(text::fill("    { uint32_t a = {}, b = {}, r = a - b; {} }"@, seq![x0, x1, x2]) + rest =~= "    { uint32_t a = "@ + (x0 + (", b = "@ + (x1 + (", r = a - b; "@ + (x2 + (" }"@ + (rest))))))));
}

proof fn lemma_letters_35(rest: Seq<char>)
    ensures
        ", r = a - b; "@ + ("ctx->n = r >> 31; "@ + ("ctx->z = r == 0; "@ + ("ctx->c = a >= b; "@ + ("ctx->v = ((a ^ b) & (a ^ r)) >> 31; "@ + ("}\n"@ + (rest)))))) == ", r = a - b; "@ + ("ctx->n = r >> 31; ctx->z = r == 0; ctx->c = a >= b; ctx->v = ((a ^ b) & (a ^ r)) >> 31;"@ + (" }"@ + ("\n"@ + (rest)))),
{
    reveal_strlit(", r = a - b; ");
    reveal_strlit("ctx->n = r >> 31; ");
    reveal_strlit("ctx->z = r == 0; ");
    reveal_strlit("ctx->c = a >= b; ");
    reveal_strlit("ctx->v = ((a ^ b) & (a ^ r)) >> 31; ");
    reveal_strlit("}\n");
    reveal_strlit("ctx->n = r >> 31; ctx->z = r == 0; ctx->c = a >= b; ctx->v = ((a ^ b) & (a ^ r)) >> 31;");
    reveal_strlit(" }");
    reveal_strlit("\n");
    assert(", r = a - b; "@ + ("ctx->n = r >> 31; "@ + ("ctx->z = r == 0; "@ + ("ctx->c = a >= b; "@ + ("ctx->v = ((a ^ b) & (a ^ r)) >> 31; "@ + ("}\n"@ + (rest)))))) =~= ", r = a - b; "@ + ("ctx->n = r >> 31; ctx->z = r == 0; ctx->c = a >= b; ctx->v = ((a ^ b) & (a ^ r)) >> 31;"@ + (" }"@ + ("\n"@ + (rest)))));
}

proof fn lemma_letters_36(rest: Seq<char>)
    ensures
        "    { "@ + ("uint32_t a = "@ + (rest)) == "    { uint32_t a = "@ + (rest),
{
    reveal_strlit("    { ");
    reveal_strlit("uint32_t a = ");
    reveal_strlit("    { uint32_t a = ");
    assert("    { "@ + ("uint32_t a = "@ + (rest)) =~= "    { uint32_t a = "@ + (rest));
}

pub open spec fn high_compare_line(x: Expression, y: Expression) -> Program {
    Program::Then(
        Layout::First,
        Statement::Open,
        Box::new(Program::Then(
        Layout::Middle,
        Statement::Declare(Type::U32, Declared::More(Name::A, x, Box::new(Declared::More(Name::B, y, Box::new(Declared::One(Name::R, Expression::Two(Operator::Minus, Box::new(Expression::Local(Name::A)), Box::new(Expression::Local(Name::B))))))))),
        Box::new(Program::Then(
        Layout::Middle,
        Statement::Assign(Place::Field(Field::N), Expression::Two(Operator::Right, Box::new(Expression::Local(Name::R)), Box::new(Expression::Int(31)))),
        Box::new(Program::Then(
        Layout::Middle,
        Statement::Assign(Place::Field(Field::Z), Expression::Two(Operator::Equal, Box::new(Expression::Local(Name::R)), Box::new(Expression::Int(0)))),
        Box::new(Program::Then(
        Layout::Middle,
        Statement::Assign(Place::Field(Field::C), Expression::Two(Operator::AtLeast, Box::new(Expression::Local(Name::A)), Box::new(Expression::Local(Name::B)))),
        Box::new(Program::Then(
        Layout::Middle,
        Statement::Assign(Place::Field(Field::V), Expression::Two(Operator::Right, Box::new(Expression::Group(Box::new(Expression::Two(Operator::And, Box::new(Expression::Group(Box::new(Expression::Two(Operator::Xor, Box::new(Expression::Local(Name::A)), Box::new(Expression::Local(Name::B)))))), Box::new(Expression::Group(Box::new(Expression::Two(Operator::Xor, Box::new(Expression::Local(Name::A)), Box::new(Expression::Local(Name::R)))))))))), Box::new(Expression::Int(31)))),
        Box::new(Program::Then(
        Layout::Last,
        Statement::Close,
        Box::new(Program::End),
    )),
    )),
    )),
    )),
    )),
    )),
    )
}

pub proof fn lemma_high_compare_line(x: Expression, y: Expression)
    requires
        x.grouped(),
        y.grouped(),
    ensures
        high_compare_line(x, y).text() == text::fill("    { uint32_t a = {}, b = {}, r = a - b; {} }"@, seq![x.text(), y.text(), lower::SUB_FLAGS@]).push('\n'),
        high_compare_line(x, y).grouped(),
{
    reveal_with_fuel(Program::text, 8);
    reveal_with_fuel(Program::grouped, 8);
    lemma_statement_3(Seq::<char>::empty());
    lemma_statement_4("}\n"@ + (Seq::<char>::empty()));
    lemma_statement_5("ctx->v = ((a ^ b) & (a ^ r)) >> 31; "@ + ("}\n"@ + (Seq::<char>::empty())));
    lemma_statement_6("ctx->c = a >= b; "@ + ("ctx->v = ((a ^ b) & (a ^ r)) >> 31; "@ + ("}\n"@ + (Seq::<char>::empty()))));
    lemma_statement_7("ctx->z = r == 0; "@ + ("ctx->c = a >= b; "@ + ("ctx->v = ((a ^ b) & (a ^ r)) >> 31; "@ + ("}\n"@ + (Seq::<char>::empty())))));
    lemma_statement_43(x, y, "ctx->n = r >> 31; "@ + ("ctx->z = r == 0; "@ + ("ctx->c = a >= b; "@ + ("ctx->v = ((a ^ b) & (a ^ r)) >> 31; "@ + ("}\n"@ + (Seq::<char>::empty()))))));
    lemma_statement_9("uint32_t a = "@ + (x.text() + (", b = "@ + (y.text() + (", r = a - b; "@ + ("ctx->n = r >> 31; "@ + ("ctx->z = r == 0; "@ + ("ctx->c = a >= b; "@ + ("ctx->v = ((a ^ b) & (a ^ r)) >> 31; "@ + ("}\n"@ + (Seq::<char>::empty())))))))))));
    assert(lower::SUB_FLAGS@ == "ctx->n = r >> 31; ctx->z = r == 0; ctx->c = a >= b; ctx->v = ((a ^ b) & (a ^ r)) >> 31;"@);
    lemma_text_25(x.text(), y.text(), lower::SUB_FLAGS@, "\n"@ + Seq::<char>::empty());
    lemma_letters_35(Seq::<char>::empty());
    lemma_letters_36(x.text() + (", b = "@ + (y.text() + (", r = a - b; "@ + ("ctx->n = r >> 31; ctx->z = r == 0; ctx->c = a >= b; ctx->v = ((a ^ b) & (a ^ r)) >> 31;"@ + (" }"@ + ("\n"@ + (Seq::<char>::empty()))))))));
    reveal_strlit("\n");
    assert(text::fill("    { uint32_t a = {}, b = {}, r = a - b; {} }"@, seq![x.text(), y.text(), lower::SUB_FLAGS@]).push('\n') =~= text::fill("    { uint32_t a = {}, b = {}, r = a - b; {} }"@, seq![x.text(), y.text(), lower::SUB_FLAGS@]) + ("\n"@ + Seq::<char>::empty()));
    assert(high_compare_line(x, y).text() == text::fill("    { uint32_t a = {}, b = {}, r = a - b; {} }"@, seq![x.text(), y.text(), lower::SUB_FLAGS@]).push('\n'));
}

proof fn lemma_statement_44(rest: Seq<char>)
    ensures
        Layout::Last.around(Statement::Dispatch.text()) + rest == "goto dispatch;\n"@ + (rest),
        Statement::Dispatch.grouped(),
{
    reveal_strlit("\n");
    reveal_strlit("goto dispatch;");
    reveal_strlit("goto dispatch;\n");
    small_c::lemma_numbers();
    reveal(Statement::text);
    reveal(Statement::grouped);
    reveal_with_fuel(Expression::text, 2);
    reveal_with_fuel(Expression::grouped, 2);
    assert(Layout::Last.around(Statement::Dispatch.text()) + rest =~= "goto dispatch;\n"@ + (rest));
}

proof fn lemma_statement_45(x: Expression, y: Expression, rest: Seq<char>)
    requires
        x.grouped(),
        y.grouped(),
        x.strength() == 16,
        y.strength() == 16,
    ensures
        Layout::First.around(Statement::Assign(Place::Local(Name::Target), Expression::Two(Operator::And, Box::new(Expression::Group(Box::new(Expression::Two(Operator::Plus, Box::new(x), Box::new(y))))), Box::new(Expression::Flip(Box::new(Expression::Unsigned(1)))))).text()) + rest == "    target = ("@ + (x.text() + (" + "@ + (y.text() + (") & ~1u; "@ + (rest))))),
        Statement::Assign(Place::Local(Name::Target), Expression::Two(Operator::And, Box::new(Expression::Group(Box::new(Expression::Two(Operator::Plus, Box::new(x), Box::new(y))))), Box::new(Expression::Flip(Box::new(Expression::Unsigned(1)))))).grouped(),
{
    reveal_strlit(" ");
    reveal_strlit("    ");
    reveal_strlit("    target = (");
    reveal_strlit(" & ");
    reveal_strlit(" + ");
    reveal_strlit(" = ");
    reveal_strlit("(");
    reveal_strlit(")");
    reveal_strlit(") & ~1u; ");
    reveal_strlit("1");
    reveal_strlit(";");
    reveal_strlit("target");
    reveal_strlit("u");
    reveal_strlit("~");
    small_c::lemma_numbers();
    reveal(Statement::text);
    reveal(Statement::grouped);
    reveal_with_fuel(Expression::text, 4);
    reveal_with_fuel(Expression::grouped, 4);
    assert(Layout::First.around(Statement::Assign(Place::Local(Name::Target), Expression::Two(Operator::And, Box::new(Expression::Group(Box::new(Expression::Two(Operator::Plus, Box::new(x), Box::new(y))))), Box::new(Expression::Flip(Box::new(Expression::Unsigned(1)))))).text()) + rest =~= "    target = ("@ + (x.text() + (" + "@ + (y.text() + (") & ~1u; "@ + (rest))))));
}

proof fn lemma_text_26(x0: Seq<char>, x1: Seq<char>, rest: Seq<char>)
    ensures
        text::fill("    target = ({} + {}) & ~1u; goto dispatch;"@, seq![x0, x1]) + rest == "    target = ("@ + (x0 + (" + "@ + (x1 + (") & ~1u; goto dispatch;"@ + (rest))))),
{
    reveal_strlit("    target = ({} + {}) & ~1u; goto dispatch;");
    reveal_strlit("{}");
    reveal_strlit("    target = (");
    reveal_strlit(" + ");
    reveal_strlit(") & ~1u; goto dispatch;");
    assert("    target = ({} + {}) & ~1u; goto dispatch;"@ =~= "    target = ("@ + "{}"@ + (" + "@ + "{}"@ + (") & ~1u; goto dispatch;"@)));
    let args_0 = seq![x0, x1];
    let args_1 = seq![x1];
    let args_2 = Seq::<Seq<char>>::empty();
    assert(args_0.skip(1) =~= args_1);
    assert(args_1.skip(1) =~= args_2);
    lemma_hole("    target = ("@, " + "@ + "{}"@ + (") & ~1u; goto dispatch;"@), args_0);
    lemma_hole(" + "@, ") & ~1u; goto dispatch;"@, args_1);
    lemma_plain(") & ~1u; goto dispatch;"@);
    assert(text::fill("    target = ({} + {}) & ~1u; goto dispatch;"@, seq![x0, x1]) + rest =~= "    target = ("@ + (x0 + (" + "@ + (x1 + (") & ~1u; goto dispatch;"@ + (rest))))));
}

proof fn lemma_letters_37(rest: Seq<char>)
    ensures
        ") & ~1u; "@ + ("goto dispatch;\n"@ + (rest)) == ") & ~1u; goto dispatch;"@ + ("\n"@ + (rest)),
{
    reveal_strlit(") & ~1u; ");
    reveal_strlit("goto dispatch;\n");
    reveal_strlit(") & ~1u; goto dispatch;");
    reveal_strlit("\n");
    assert(") & ~1u; "@ + ("goto dispatch;\n"@ + (rest)) =~= ") & ~1u; goto dispatch;"@ + ("\n"@ + (rest)));
}

pub open spec fn high_add_pc_line(x: Expression, y: Expression) -> Program {
    Program::Then(
        Layout::First,
        Statement::Assign(Place::Local(Name::Target), Expression::Two(Operator::And, Box::new(Expression::Group(Box::new(Expression::Two(Operator::Plus, Box::new(x), Box::new(y))))), Box::new(Expression::Flip(Box::new(Expression::Unsigned(1)))))),
        Box::new(Program::Then(
        Layout::Last,
        Statement::Dispatch,
        Box::new(Program::End),
    )),
    )
}

pub proof fn lemma_high_add_pc_line(x: Expression, y: Expression)
    requires
        x.grouped(),
        y.grouped(),
        x.strength() == 16,
        y.strength() == 16,
    ensures
        high_add_pc_line(x, y).text() == text::fill("    target = ({} + {}) & ~1u; goto dispatch;"@, seq![x.text(), y.text()]).push('\n'),
        high_add_pc_line(x, y).grouped(),
{
    reveal_with_fuel(Program::text, 3);
    reveal_with_fuel(Program::grouped, 3);
    lemma_statement_44(Seq::<char>::empty());
    lemma_statement_45(x, y, "goto dispatch;\n"@ + (Seq::<char>::empty()));
    lemma_text_26(x.text(), y.text(), "\n"@ + Seq::<char>::empty());
    lemma_letters_37(Seq::<char>::empty());
    reveal_strlit("\n");
    assert(text::fill("    target = ({} + {}) & ~1u; goto dispatch;"@, seq![x.text(), y.text()]).push('\n') =~= text::fill("    target = ({} + {}) & ~1u; goto dispatch;"@, seq![x.text(), y.text()]) + ("\n"@ + Seq::<char>::empty()));
    assert(high_add_pc_line(x, y).text() == text::fill("    target = ({} + {}) & ~1u; goto dispatch;"@, seq![x.text(), y.text()]).push('\n'));
}

proof fn lemma_statement_46(x: Expression, rest: Seq<char>)
    requires
        x.grouped(),
        x.strength() == 16,
    ensures
        Layout::First.around(Statement::Assign(Place::Local(Name::Target), Expression::Two(Operator::And, Box::new(x), Box::new(Expression::Flip(Box::new(Expression::Unsigned(1)))))).text()) + rest == "    target = "@ + (x.text() + (" & ~1u; "@ + (rest))),
        Statement::Assign(Place::Local(Name::Target), Expression::Two(Operator::And, Box::new(x), Box::new(Expression::Flip(Box::new(Expression::Unsigned(1)))))).grouped(),
{
    reveal_strlit(" ");
    reveal_strlit("    ");
    reveal_strlit("    target = ");
    reveal_strlit(" & ");
    reveal_strlit(" & ~1u; ");
    reveal_strlit(" = ");
    reveal_strlit("1");
    reveal_strlit(";");
    reveal_strlit("target");
    reveal_strlit("u");
    reveal_strlit("~");
    small_c::lemma_numbers();
    reveal(Statement::text);
    reveal(Statement::grouped);
    reveal_with_fuel(Expression::text, 4);
    reveal_with_fuel(Expression::grouped, 4);
    assert(Layout::First.around(Statement::Assign(Place::Local(Name::Target), Expression::Two(Operator::And, Box::new(x), Box::new(Expression::Flip(Box::new(Expression::Unsigned(1)))))).text()) + rest =~= "    target = "@ + (x.text() + (" & ~1u; "@ + (rest))));
}

proof fn lemma_text_27(x0: Seq<char>, rest: Seq<char>)
    ensures
        text::fill("    target = {} & ~1u; goto dispatch;"@, seq![x0]) + rest == "    target = "@ + (x0 + (" & ~1u; goto dispatch;"@ + (rest))),
{
    reveal_strlit("    target = {} & ~1u; goto dispatch;");
    reveal_strlit("{}");
    reveal_strlit("    target = ");
    reveal_strlit(" & ~1u; goto dispatch;");
    assert("    target = {} & ~1u; goto dispatch;"@ =~= "    target = "@ + "{}"@ + (" & ~1u; goto dispatch;"@));
    let args_0 = seq![x0];
    let args_1 = Seq::<Seq<char>>::empty();
    assert(args_0.skip(1) =~= args_1);
    lemma_hole("    target = "@, " & ~1u; goto dispatch;"@, args_0);
    lemma_plain(" & ~1u; goto dispatch;"@);
    assert(text::fill("    target = {} & ~1u; goto dispatch;"@, seq![x0]) + rest =~= "    target = "@ + (x0 + (" & ~1u; goto dispatch;"@ + (rest))));
}

proof fn lemma_letters_38(rest: Seq<char>)
    ensures
        " & ~1u; "@ + ("goto dispatch;\n"@ + (rest)) == " & ~1u; goto dispatch;"@ + ("\n"@ + (rest)),
{
    reveal_strlit(" & ~1u; ");
    reveal_strlit("goto dispatch;\n");
    reveal_strlit(" & ~1u; goto dispatch;");
    reveal_strlit("\n");
    assert(" & ~1u; "@ + ("goto dispatch;\n"@ + (rest)) =~= " & ~1u; goto dispatch;"@ + ("\n"@ + (rest)));
}

pub open spec fn high_move_pc_line(x: Expression) -> Program {
    Program::Then(
        Layout::First,
        Statement::Assign(Place::Local(Name::Target), Expression::Two(Operator::And, Box::new(x), Box::new(Expression::Flip(Box::new(Expression::Unsigned(1)))))),
        Box::new(Program::Then(
        Layout::Last,
        Statement::Dispatch,
        Box::new(Program::End),
    )),
    )
}

pub proof fn lemma_high_move_pc_line(x: Expression)
    requires
        x.grouped(),
        x.strength() == 16,
    ensures
        high_move_pc_line(x).text() == text::fill("    target = {} & ~1u; goto dispatch;"@, seq![x.text()]).push('\n'),
        high_move_pc_line(x).grouped(),
{
    reveal_with_fuel(Program::text, 3);
    reveal_with_fuel(Program::grouped, 3);
    lemma_statement_44(Seq::<char>::empty());
    lemma_statement_46(x, "goto dispatch;\n"@ + (Seq::<char>::empty()));
    lemma_text_27(x.text(), "\n"@ + Seq::<char>::empty());
    lemma_letters_38(Seq::<char>::empty());
    reveal_strlit("\n");
    assert(text::fill("    target = {} & ~1u; goto dispatch;"@, seq![x.text()]).push('\n') =~= text::fill("    target = {} & ~1u; goto dispatch;"@, seq![x.text()]) + ("\n"@ + Seq::<char>::empty()));
    assert(high_move_pc_line(x).text() == text::fill("    target = {} & ~1u; goto dispatch;"@, seq![x.text()]).push('\n'));
}

proof fn lemma_statement_47(rest: Seq<char>)
    ensures
        Layout::Last.around(Statement::Back.text()) + rest == "return;\n"@ + (rest),
        Statement::Back.grouped(),
{
    reveal_strlit("\n");
    reveal_strlit("return;");
    reveal_strlit("return;\n");
    small_c::lemma_numbers();
    reveal(Statement::text);
    reveal(Statement::grouped);
    reveal_with_fuel(Expression::text, 2);
    reveal_with_fuel(Expression::grouped, 2);
    assert(Layout::Last.around(Statement::Back.text()) + rest =~= "return;\n"@ + (rest));
}

proof fn lemma_statement_48(rest: Seq<char>)
    ensures
        Layout::First.around(Statement::Assign(Place::Register(15), Expression::Two(Operator::And, Box::new(Expression::Register(14)), Box::new(Expression::Flip(Box::new(Expression::Unsigned(1)))))).text()) + rest == "    ctx->r[15] = ctx->r[14] & ~1u; "@ + (rest),
        Statement::Assign(Place::Register(15), Expression::Two(Operator::And, Box::new(Expression::Register(14)), Box::new(Expression::Flip(Box::new(Expression::Unsigned(1)))))).grouped(),
{
    reveal_strlit(" ");
    reveal_strlit("    ");
    reveal_strlit("    ctx->r[15] = ctx->r[14] & ~1u; ");
    reveal_strlit(" & ");
    reveal_strlit(" = ");
    reveal_strlit("1");
    reveal_strlit("14");
    reveal_strlit("15");
    reveal_strlit(";");
    reveal_strlit("]");
    reveal_strlit("ctx->r[");
    reveal_strlit("u");
    reveal_strlit("~");
    small_c::lemma_numbers();
    reveal(Statement::text);
    reveal(Statement::grouped);
    reveal_with_fuel(Expression::text, 4);
    reveal_with_fuel(Expression::grouped, 4);
    assert(Layout::First.around(Statement::Assign(Place::Register(15), Expression::Two(Operator::And, Box::new(Expression::Register(14)), Box::new(Expression::Flip(Box::new(Expression::Unsigned(1)))))).text()) + rest =~= "    ctx->r[15] = ctx->r[14] & ~1u; "@ + (rest));
}

proof fn lemma_text_28(rest: Seq<char>)
    ensures
        text::fill("    ctx->r[15] = ctx->r[14] & ~1u; return;"@, Seq::<Seq<char>>::empty()) + rest == "    ctx->r[15] = ctx->r[14] & ~1u; return;"@ + (rest),
{
    lemma_plain("    ctx->r[15] = ctx->r[14] & ~1u; return;"@);
    assert(text::fill("    ctx->r[15] = ctx->r[14] & ~1u; return;"@, Seq::<Seq<char>>::empty()) + rest =~= "    ctx->r[15] = ctx->r[14] & ~1u; return;"@ + (rest));
}

proof fn lemma_letters_39(rest: Seq<char>)
    ensures
        "    ctx->r[15] = ctx->r[14] & ~1u; "@ + ("return;\n"@ + (rest)) == "    ctx->r[15] = ctx->r[14] & ~1u; return;"@ + ("\n"@ + (rest)),
{
    reveal_strlit("    ctx->r[15] = ctx->r[14] & ~1u; ");
    reveal_strlit("return;\n");
    reveal_strlit("    ctx->r[15] = ctx->r[14] & ~1u; return;");
    reveal_strlit("\n");
    assert("    ctx->r[15] = ctx->r[14] & ~1u; "@ + ("return;\n"@ + (rest)) =~= "    ctx->r[15] = ctx->r[14] & ~1u; return;"@ + ("\n"@ + (rest)));
}

pub open spec fn high_return_line() -> Program {
    Program::Then(
        Layout::First,
        Statement::Assign(Place::Register(15), Expression::Two(Operator::And, Box::new(Expression::Register(14)), Box::new(Expression::Flip(Box::new(Expression::Unsigned(1)))))),
        Box::new(Program::Then(
        Layout::Last,
        Statement::Back,
        Box::new(Program::End),
    )),
    )
}

pub proof fn lemma_high_return_line()
    ensures
        high_return_line().text() == text::fill("    ctx->r[15] = ctx->r[14] & ~1u; return;"@, Seq::<Seq<char>>::empty()).push('\n'),
        high_return_line().grouped(),
{
    reveal_with_fuel(Program::text, 3);
    reveal_with_fuel(Program::grouped, 3);
    lemma_statement_47(Seq::<char>::empty());
    lemma_statement_48("return;\n"@ + (Seq::<char>::empty()));
    lemma_text_28("\n"@ + Seq::<char>::empty());
    lemma_letters_39(Seq::<char>::empty());
    reveal_strlit("\n");
    assert(text::fill("    ctx->r[15] = ctx->r[14] & ~1u; return;"@, Seq::<Seq<char>>::empty()).push('\n') =~= text::fill("    ctx->r[15] = ctx->r[14] & ~1u; return;"@, Seq::<Seq<char>>::empty()) + ("\n"@ + Seq::<char>::empty()));
    assert(high_return_line().text() == text::fill("    ctx->r[15] = ctx->r[14] & ~1u; return;"@, Seq::<Seq<char>>::empty()).push('\n'));
}

proof fn lemma_statement_49(rest: Seq<char>)
    ensures
        Layout::Alone.around(Statement::ReturnTo(Expression::Register(14)).text()) + rest == "    RETURN_TO(ctx->r[14]);\n"@ + (rest),
        Statement::ReturnTo(Expression::Register(14)).grouped(),
{
    reveal_strlit("\n");
    reveal_strlit("    ");
    reveal_strlit("    RETURN_TO(ctx->r[14]);\n");
    reveal_strlit(");");
    reveal_strlit("14");
    reveal_strlit("RETURN_TO(");
    reveal_strlit("]");
    reveal_strlit("ctx->r[");
    small_c::lemma_numbers();
    reveal(Statement::text);
    reveal(Statement::grouped);
    reveal_with_fuel(Expression::text, 2);
    reveal_with_fuel(Expression::grouped, 2);
    assert(Layout::Alone.around(Statement::ReturnTo(Expression::Register(14)).text()) + rest =~= "    RETURN_TO(ctx->r[14]);\n"@ + (rest));
}

proof fn lemma_text_29(rest: Seq<char>)
    ensures
        text::fill("    RETURN_TO(ctx->r[14]);"@, Seq::<Seq<char>>::empty()) + rest == "    RETURN_TO(ctx->r[14]);"@ + (rest),
{
    lemma_plain("    RETURN_TO(ctx->r[14]);"@);
    assert(text::fill("    RETURN_TO(ctx->r[14]);"@, Seq::<Seq<char>>::empty()) + rest =~= "    RETURN_TO(ctx->r[14]);"@ + (rest));
}

proof fn lemma_letters_40(rest: Seq<char>)
    ensures
        "    RETURN_TO(ctx->r[14]);\n"@ + (rest) == "    RETURN_TO(ctx->r[14]);"@ + ("\n"@ + (rest)),
{
    reveal_strlit("    RETURN_TO(ctx->r[14]);\n");
    reveal_strlit("    RETURN_TO(ctx->r[14]);");
    reveal_strlit("\n");
    assert("    RETURN_TO(ctx->r[14]);\n"@ + (rest) =~= "    RETURN_TO(ctx->r[14]);"@ + ("\n"@ + (rest)));
}

pub open spec fn return_lr_line() -> Program {
    Program::Then(
        Layout::Alone,
        Statement::ReturnTo(Expression::Register(14)),
        Box::new(Program::End),
    )
}

pub proof fn lemma_return_lr_line()
    ensures
        return_lr_line().text() == text::fill("    RETURN_TO(ctx->r[14]);"@, Seq::<Seq<char>>::empty()).push('\n'),
        return_lr_line().grouped(),
{
    reveal_with_fuel(Program::text, 2);
    reveal_with_fuel(Program::grouped, 2);
    lemma_statement_49(Seq::<char>::empty());
    lemma_text_29("\n"@ + Seq::<char>::empty());
    lemma_letters_40(Seq::<char>::empty());
    reveal_strlit("\n");
    assert(text::fill("    RETURN_TO(ctx->r[14]);"@, Seq::<Seq<char>>::empty()).push('\n') =~= text::fill("    RETURN_TO(ctx->r[14]);"@, Seq::<Seq<char>>::empty()) + ("\n"@ + Seq::<char>::empty()));
    assert(return_lr_line().text() == text::fill("    RETURN_TO(ctx->r[14]);"@, Seq::<Seq<char>>::empty()).push('\n'));
}

proof fn lemma_statement_50(x: Expression, rest: Seq<char>)
    requires
        x.grouped(),
    ensures
        Layout::Alone.around(Statement::JumpTo(x).text()) + rest == "    JUMP_TO("@ + (x.text() + (");\n"@ + (rest))),
        Statement::JumpTo(x).grouped(),
{
    reveal_strlit("\n");
    reveal_strlit("    ");
    reveal_strlit("    JUMP_TO(");
    reveal_strlit(");");
    reveal_strlit(");\n");
    reveal_strlit("JUMP_TO(");
    small_c::lemma_numbers();
    reveal(Statement::text);
    reveal(Statement::grouped);
    assert(Layout::Alone.around(Statement::JumpTo(x).text()) + rest =~= "    JUMP_TO("@ + (x.text() + (");\n"@ + (rest))));
}

proof fn lemma_text_30(x0: Seq<char>, rest: Seq<char>)
    ensures
        text::fill("    JUMP_TO({});"@, seq![x0]) + rest == "    JUMP_TO("@ + (x0 + (");"@ + (rest))),
{
    reveal_strlit("    JUMP_TO({});");
    reveal_strlit("{}");
    reveal_strlit("    JUMP_TO(");
    reveal_strlit(");");
    assert("    JUMP_TO({});"@ =~= "    JUMP_TO("@ + "{}"@ + (");"@));
    let args_0 = seq![x0];
    let args_1 = Seq::<Seq<char>>::empty();
    assert(args_0.skip(1) =~= args_1);
    lemma_hole("    JUMP_TO("@, ");"@, args_0);
    lemma_plain(");"@);
    assert(text::fill("    JUMP_TO({});"@, seq![x0]) + rest =~= "    JUMP_TO("@ + (x0 + (");"@ + (rest))));
}

proof fn lemma_letters_41(rest: Seq<char>)
    ensures
        ");\n"@ + (rest) == ");"@ + ("\n"@ + (rest)),
{
    reveal_strlit(");\n");
    reveal_strlit(");");
    reveal_strlit("\n");
    assert(");\n"@ + (rest) =~= ");"@ + ("\n"@ + (rest)));
}

pub open spec fn jump_to_line(x: Expression) -> Program {
    Program::Then(
        Layout::Alone,
        Statement::JumpTo(x),
        Box::new(Program::End),
    )
}

pub proof fn lemma_jump_to_line(x: Expression)
    requires
        x.grouped(),
    ensures
        jump_to_line(x).text() == text::fill("    JUMP_TO({});"@, seq![x.text()]).push('\n'),
        jump_to_line(x).grouped(),
{
    reveal_with_fuel(Program::text, 2);
    reveal_with_fuel(Program::grouped, 2);
    lemma_statement_50(x, Seq::<char>::empty());
    lemma_text_30(x.text(), "\n"@ + Seq::<char>::empty());
    lemma_letters_41(Seq::<char>::empty());
    reveal_strlit("\n");
    assert(text::fill("    JUMP_TO({});"@, seq![x.text()]).push('\n') =~= text::fill("    JUMP_TO({});"@, seq![x.text()]) + ("\n"@ + Seq::<char>::empty()));
    assert(jump_to_line(x).text() == text::fill("    JUMP_TO({});"@, seq![x.text()]).push('\n'));
}

proof fn lemma_statement_51(rd: nat, x: Expression, rest: Seq<char>)
    requires
        x.grouped(),
    ensures
        Layout::Alone.around(Statement::Assign(Place::Register(rd), Expression::Load(32, Box::new(x))).text()) + rest == "    ctx->r["@ + (text::dec(rd) + ("] = mem_read32(ctx, "@ + (x.text() + (");\n"@ + (rest))))),
        Statement::Assign(Place::Register(rd), Expression::Load(32, Box::new(x))).grouped(),
{
    reveal_strlit("\n");
    reveal_strlit("    ");
    reveal_strlit("    ctx->r[");
    reveal_strlit(" = ");
    reveal_strlit("(ctx, ");
    reveal_strlit(")");
    reveal_strlit(");\n");
    reveal_strlit("32");
    reveal_strlit(";");
    reveal_strlit("]");
    reveal_strlit("] = mem_read32(ctx, ");
    reveal_strlit("ctx->r[");
    reveal_strlit("mem_read");
    small_c::lemma_numbers();
    reveal(Statement::text);
    reveal(Statement::grouped);
    reveal_with_fuel(Expression::text, 2);
    reveal_with_fuel(Expression::grouped, 2);
    assert(Layout::Alone.around(Statement::Assign(Place::Register(rd), Expression::Load(32, Box::new(x))).text()) + rest =~= "    ctx->r["@ + (text::dec(rd) + ("] = mem_read32(ctx, "@ + (x.text() + (");\n"@ + (rest))))));
}

proof fn lemma_text_31(x0: Seq<char>, x1: Seq<char>, x2: Seq<char>, rest: Seq<char>)
    ensures
        text::fill("    ctx->r[{}] = {}(ctx, {});"@, seq![x0, x1, x2]) + rest == "    ctx->r["@ + (x0 + ("] = "@ + (x1 + ("(ctx, "@ + (x2 + (");"@ + (rest))))))),
{
    reveal_strlit("    ctx->r[{}] = {}(ctx, {});");
    reveal_strlit("{}");
    reveal_strlit("    ctx->r[");
    reveal_strlit("] = ");
    reveal_strlit("(ctx, ");
    reveal_strlit(");");
    assert("    ctx->r[{}] = {}(ctx, {});"@ =~= "    ctx->r["@ + "{}"@ + ("] = "@ + "{}"@ + ("(ctx, "@ + "{}"@ + (");"@))));
    let args_0 = seq![x0, x1, x2];
    let args_1 = seq![x1, x2];
    let args_2 = seq![x2];
    let args_3 = Seq::<Seq<char>>::empty();
    assert(args_0.skip(1) =~= args_1);
    assert(args_1.skip(1) =~= args_2);
    assert(args_2.skip(1) =~= args_3);
    lemma_hole("    ctx->r["@, "] = "@ + "{}"@ + ("(ctx, "@ + "{}"@ + (");"@)), args_0);
    lemma_hole("] = "@, "(ctx, "@ + "{}"@ + (");"@), args_1);
    lemma_hole("(ctx, "@, ");"@, args_2);
    lemma_plain(");"@);
    assert(text::fill("    ctx->r[{}] = {}(ctx, {});"@, seq![x0, x1, x2]) + rest =~= "    ctx->r["@ + (x0 + ("] = "@ + (x1 + ("(ctx, "@ + (x2 + (");"@ + (rest))))))));
}

proof fn lemma_letters_42(rest: Seq<char>)
    ensures
        "] = mem_read32(ctx, "@ + (rest) == "] = "@ + ("mem_read32"@ + ("(ctx, "@ + (rest))),
{
    reveal_strlit("] = mem_read32(ctx, ");
    reveal_strlit("] = ");
    reveal_strlit("mem_read32");
    reveal_strlit("(ctx, ");
    assert("] = mem_read32(ctx, "@ + (rest) =~= "] = "@ + ("mem_read32"@ + ("(ctx, "@ + (rest))));
}

pub open spec fn load_word_line(rd: nat, x: Expression) -> Program {
    Program::Then(
        Layout::Alone,
        Statement::Assign(Place::Register(rd), Expression::Load(32, Box::new(x))),
        Box::new(Program::End),
    )
}

pub proof fn lemma_load_word_line(rd: nat, x: Expression)
    requires
        x.grouped(),
    ensures
        load_word_line(rd, x).text() == text::fill("    ctx->r[{}] = {}(ctx, {});"@, seq![text::dec(rd), "mem_read32"@, x.text()]).push('\n'),
        load_word_line(rd, x).grouped(),
{
    reveal_with_fuel(Program::text, 2);
    reveal_with_fuel(Program::grouped, 2);
    lemma_statement_51(rd, x, Seq::<char>::empty());
    assert("mem_read32"@ == "mem_read32"@);
    lemma_text_31(text::dec(rd), "mem_read32"@, x.text(), "\n"@ + Seq::<char>::empty());
    lemma_letters_41(Seq::<char>::empty());
    lemma_letters_42(x.text() + (");"@ + ("\n"@ + (Seq::<char>::empty()))));
    reveal_strlit("\n");
    assert(text::fill("    ctx->r[{}] = {}(ctx, {});"@, seq![text::dec(rd), "mem_read32"@, x.text()]).push('\n') =~= text::fill("    ctx->r[{}] = {}(ctx, {});"@, seq![text::dec(rd), "mem_read32"@, x.text()]) + ("\n"@ + Seq::<char>::empty()));
    assert(load_word_line(rd, x).text() == text::fill("    ctx->r[{}] = {}(ctx, {});"@, seq![text::dec(rd), "mem_read32"@, x.text()]).push('\n'));
}

proof fn lemma_statement_52(rd: nat, x: Expression, rest: Seq<char>)
    requires
        x.grouped(),
    ensures
        Layout::Alone.around(Statement::Assign(Place::Register(rd), Expression::Load(16, Box::new(x))).text()) + rest == "    ctx->r["@ + (text::dec(rd) + ("] = mem_read16(ctx, "@ + (x.text() + (");\n"@ + (rest))))),
        Statement::Assign(Place::Register(rd), Expression::Load(16, Box::new(x))).grouped(),
{
    reveal_strlit("\n");
    reveal_strlit("    ");
    reveal_strlit("    ctx->r[");
    reveal_strlit(" = ");
    reveal_strlit("(ctx, ");
    reveal_strlit(")");
    reveal_strlit(");\n");
    reveal_strlit("16");
    reveal_strlit(";");
    reveal_strlit("]");
    reveal_strlit("] = mem_read16(ctx, ");
    reveal_strlit("ctx->r[");
    reveal_strlit("mem_read");
    small_c::lemma_numbers();
    reveal(Statement::text);
    reveal(Statement::grouped);
    reveal_with_fuel(Expression::text, 2);
    reveal_with_fuel(Expression::grouped, 2);
    assert(Layout::Alone.around(Statement::Assign(Place::Register(rd), Expression::Load(16, Box::new(x))).text()) + rest =~= "    ctx->r["@ + (text::dec(rd) + ("] = mem_read16(ctx, "@ + (x.text() + (");\n"@ + (rest))))));
}

proof fn lemma_letters_43(rest: Seq<char>)
    ensures
        "] = mem_read16(ctx, "@ + (rest) == "] = "@ + ("mem_read16"@ + ("(ctx, "@ + (rest))),
{
    reveal_strlit("] = mem_read16(ctx, ");
    reveal_strlit("] = ");
    reveal_strlit("mem_read16");
    reveal_strlit("(ctx, ");
    assert("] = mem_read16(ctx, "@ + (rest) =~= "] = "@ + ("mem_read16"@ + ("(ctx, "@ + (rest))));
}

pub open spec fn load_half_line(rd: nat, x: Expression) -> Program {
    Program::Then(
        Layout::Alone,
        Statement::Assign(Place::Register(rd), Expression::Load(16, Box::new(x))),
        Box::new(Program::End),
    )
}

pub proof fn lemma_load_half_line(rd: nat, x: Expression)
    requires
        x.grouped(),
    ensures
        load_half_line(rd, x).text() == text::fill("    ctx->r[{}] = {}(ctx, {});"@, seq![text::dec(rd), "mem_read16"@, x.text()]).push('\n'),
        load_half_line(rd, x).grouped(),
{
    reveal_with_fuel(Program::text, 2);
    reveal_with_fuel(Program::grouped, 2);
    lemma_statement_52(rd, x, Seq::<char>::empty());
    assert("mem_read16"@ == "mem_read16"@);
    lemma_text_31(text::dec(rd), "mem_read16"@, x.text(), "\n"@ + Seq::<char>::empty());
    lemma_letters_41(Seq::<char>::empty());
    lemma_letters_43(x.text() + (");"@ + ("\n"@ + (Seq::<char>::empty()))));
    reveal_strlit("\n");
    assert(text::fill("    ctx->r[{}] = {}(ctx, {});"@, seq![text::dec(rd), "mem_read16"@, x.text()]).push('\n') =~= text::fill("    ctx->r[{}] = {}(ctx, {});"@, seq![text::dec(rd), "mem_read16"@, x.text()]) + ("\n"@ + Seq::<char>::empty()));
    assert(load_half_line(rd, x).text() == text::fill("    ctx->r[{}] = {}(ctx, {});"@, seq![text::dec(rd), "mem_read16"@, x.text()]).push('\n'));
}

proof fn lemma_statement_53(rd: nat, x: Expression, rest: Seq<char>)
    requires
        x.grouped(),
    ensures
        Layout::Alone.around(Statement::Assign(Place::Register(rd), Expression::Load(8, Box::new(x))).text()) + rest == "    ctx->r["@ + (text::dec(rd) + ("] = mem_read8(ctx, "@ + (x.text() + (");\n"@ + (rest))))),
        Statement::Assign(Place::Register(rd), Expression::Load(8, Box::new(x))).grouped(),
{
    reveal_strlit("\n");
    reveal_strlit("    ");
    reveal_strlit("    ctx->r[");
    reveal_strlit(" = ");
    reveal_strlit("(ctx, ");
    reveal_strlit(")");
    reveal_strlit(");\n");
    reveal_strlit("8");
    reveal_strlit(";");
    reveal_strlit("]");
    reveal_strlit("] = mem_read8(ctx, ");
    reveal_strlit("ctx->r[");
    reveal_strlit("mem_read");
    small_c::lemma_numbers();
    reveal(Statement::text);
    reveal(Statement::grouped);
    reveal_with_fuel(Expression::text, 2);
    reveal_with_fuel(Expression::grouped, 2);
    assert(Layout::Alone.around(Statement::Assign(Place::Register(rd), Expression::Load(8, Box::new(x))).text()) + rest =~= "    ctx->r["@ + (text::dec(rd) + ("] = mem_read8(ctx, "@ + (x.text() + (");\n"@ + (rest))))));
}

proof fn lemma_letters_44(rest: Seq<char>)
    ensures
        "] = mem_read8(ctx, "@ + (rest) == "] = "@ + ("mem_read8"@ + ("(ctx, "@ + (rest))),
{
    reveal_strlit("] = mem_read8(ctx, ");
    reveal_strlit("] = ");
    reveal_strlit("mem_read8");
    reveal_strlit("(ctx, ");
    assert("] = mem_read8(ctx, "@ + (rest) =~= "] = "@ + ("mem_read8"@ + ("(ctx, "@ + (rest))));
}

pub open spec fn load_byte_line(rd: nat, x: Expression) -> Program {
    Program::Then(
        Layout::Alone,
        Statement::Assign(Place::Register(rd), Expression::Load(8, Box::new(x))),
        Box::new(Program::End),
    )
}

pub proof fn lemma_load_byte_line(rd: nat, x: Expression)
    requires
        x.grouped(),
    ensures
        load_byte_line(rd, x).text() == text::fill("    ctx->r[{}] = {}(ctx, {});"@, seq![text::dec(rd), "mem_read8"@, x.text()]).push('\n'),
        load_byte_line(rd, x).grouped(),
{
    reveal_with_fuel(Program::text, 2);
    reveal_with_fuel(Program::grouped, 2);
    lemma_statement_53(rd, x, Seq::<char>::empty());
    assert("mem_read8"@ == "mem_read8"@);
    lemma_text_31(text::dec(rd), "mem_read8"@, x.text(), "\n"@ + Seq::<char>::empty());
    lemma_letters_41(Seq::<char>::empty());
    lemma_letters_44(x.text() + (");"@ + ("\n"@ + (Seq::<char>::empty()))));
    reveal_strlit("\n");
    assert(text::fill("    ctx->r[{}] = {}(ctx, {});"@, seq![text::dec(rd), "mem_read8"@, x.text()]).push('\n') =~= text::fill("    ctx->r[{}] = {}(ctx, {});"@, seq![text::dec(rd), "mem_read8"@, x.text()]) + ("\n"@ + Seq::<char>::empty()));
    assert(load_byte_line(rd, x).text() == text::fill("    ctx->r[{}] = {}(ctx, {});"@, seq![text::dec(rd), "mem_read8"@, x.text()]).push('\n'));
}

#[verifier::rlimit(60)]
proof fn lemma_statement_54(rd: nat, x: Expression, rest: Seq<char>)
    requires
        x.grouped(),
    ensures
        Layout::Alone.around(Statement::Assign(Place::Register(rd), Expression::Cast(Type::U32, Box::new(Expression::Cast(Type::I32, Box::new(Expression::Cast(Type::I8, Box::new(Expression::Load(8, Box::new(x))))))))).text()) + rest == "    ctx->r["@ + (text::dec(rd) + ("] = (uint32_t)(int32_t)(int8_t)mem_read8(ctx, "@ + (x.text() + (");\n"@ + (rest))))),
        Statement::Assign(Place::Register(rd), Expression::Cast(Type::U32, Box::new(Expression::Cast(Type::I32, Box::new(Expression::Cast(Type::I8, Box::new(Expression::Load(8, Box::new(x))))))))).grouped(),
{
    reveal_strlit("\n");
    reveal_strlit("    ");
    reveal_strlit("    ctx->r[");
    reveal_strlit(" = ");
    reveal_strlit("(");
    reveal_strlit("(ctx, ");
    reveal_strlit(")");
    reveal_strlit(");\n");
    reveal_strlit("8");
    reveal_strlit(";");
    reveal_strlit("]");
    reveal_strlit("] = (uint32_t)(int32_t)(int8_t)mem_read8(ctx, ");
    reveal_strlit("ctx->r[");
    reveal_strlit("int32_t");
    reveal_strlit("int8_t");
    reveal_strlit("mem_read");
    reveal_strlit("uint32_t");
    small_c::lemma_numbers();
    reveal(Statement::text);
    reveal(Statement::grouped);
    reveal_with_fuel(Expression::text, 5);
    reveal_with_fuel(Expression::grouped, 5);
    assert(Layout::Alone.around(Statement::Assign(Place::Register(rd), Expression::Cast(Type::U32, Box::new(Expression::Cast(Type::I32, Box::new(Expression::Cast(Type::I8, Box::new(Expression::Load(8, Box::new(x))))))))).text()) + rest =~= "    ctx->r["@ + (text::dec(rd) + ("] = (uint32_t)(int32_t)(int8_t)mem_read8(ctx, "@ + (x.text() + (");\n"@ + (rest))))));
}

proof fn lemma_letters_45(rest: Seq<char>)
    ensures
        "] = (uint32_t)(int32_t)(int8_t)mem_read8(ctx, "@ + (rest) == "] = "@ + ("(uint32_t)(int32_t)(int8_t)mem_read8"@ + ("(ctx, "@ + (rest))),
{
    reveal_strlit("] = (uint32_t)(int32_t)(int8_t)mem_read8(ctx, ");
    reveal_strlit("] = ");
    reveal_strlit("(uint32_t)(int32_t)(int8_t)mem_read8");
    reveal_strlit("(ctx, ");
    assert("] = (uint32_t)(int32_t)(int8_t)mem_read8(ctx, "@ + (rest) =~= "] = "@ + ("(uint32_t)(int32_t)(int8_t)mem_read8"@ + ("(ctx, "@ + (rest))));
}

pub open spec fn load_signed_byte_line(rd: nat, x: Expression) -> Program {
    Program::Then(
        Layout::Alone,
        Statement::Assign(Place::Register(rd), Expression::Cast(Type::U32, Box::new(Expression::Cast(Type::I32, Box::new(Expression::Cast(Type::I8, Box::new(Expression::Load(8, Box::new(x))))))))),
        Box::new(Program::End),
    )
}

pub proof fn lemma_load_signed_byte_line(rd: nat, x: Expression)
    requires
        x.grouped(),
    ensures
        load_signed_byte_line(rd, x).text() == text::fill("    ctx->r[{}] = {}(ctx, {});"@, seq![text::dec(rd), "(uint32_t)(int32_t)(int8_t)mem_read8"@, x.text()]).push('\n'),
        load_signed_byte_line(rd, x).grouped(),
{
    reveal_with_fuel(Program::text, 2);
    reveal_with_fuel(Program::grouped, 2);
    lemma_statement_54(rd, x, Seq::<char>::empty());
    assert("(uint32_t)(int32_t)(int8_t)mem_read8"@ == "(uint32_t)(int32_t)(int8_t)mem_read8"@);
    lemma_text_31(text::dec(rd), "(uint32_t)(int32_t)(int8_t)mem_read8"@, x.text(), "\n"@ + Seq::<char>::empty());
    lemma_letters_41(Seq::<char>::empty());
    lemma_letters_45(x.text() + (");"@ + ("\n"@ + (Seq::<char>::empty()))));
    reveal_strlit("\n");
    assert(text::fill("    ctx->r[{}] = {}(ctx, {});"@, seq![text::dec(rd), "(uint32_t)(int32_t)(int8_t)mem_read8"@, x.text()]).push('\n') =~= text::fill("    ctx->r[{}] = {}(ctx, {});"@, seq![text::dec(rd), "(uint32_t)(int32_t)(int8_t)mem_read8"@, x.text()]) + ("\n"@ + Seq::<char>::empty()));
    assert(load_signed_byte_line(rd, x).text() == text::fill("    ctx->r[{}] = {}(ctx, {});"@, seq![text::dec(rd), "(uint32_t)(int32_t)(int8_t)mem_read8"@, x.text()]).push('\n'));
}

#[verifier::rlimit(60)]
proof fn lemma_statement_55(rd: nat, x: Expression, rest: Seq<char>)
    requires
        x.grouped(),
    ensures
        Layout::Alone.around(Statement::Assign(Place::Register(rd), Expression::Cast(Type::U32, Box::new(Expression::Cast(Type::I32, Box::new(Expression::Cast(Type::I16, Box::new(Expression::Load(16, Box::new(x))))))))).text()) + rest == "    ctx->r["@ + (text::dec(rd) + ("] = (uint32_t)(int32_t)(int16_t)mem_read16(ctx, "@ + (x.text() + (");\n"@ + (rest))))),
        Statement::Assign(Place::Register(rd), Expression::Cast(Type::U32, Box::new(Expression::Cast(Type::I32, Box::new(Expression::Cast(Type::I16, Box::new(Expression::Load(16, Box::new(x))))))))).grouped(),
{
    reveal_strlit("\n");
    reveal_strlit("    ");
    reveal_strlit("    ctx->r[");
    reveal_strlit(" = ");
    reveal_strlit("(");
    reveal_strlit("(ctx, ");
    reveal_strlit(")");
    reveal_strlit(");\n");
    reveal_strlit("16");
    reveal_strlit(";");
    reveal_strlit("]");
    reveal_strlit("] = (uint32_t)(int32_t)(int16_t)mem_read16(ctx, ");
    reveal_strlit("ctx->r[");
    reveal_strlit("int16_t");
    reveal_strlit("int32_t");
    reveal_strlit("mem_read");
    reveal_strlit("uint32_t");
    small_c::lemma_numbers();
    reveal(Statement::text);
    reveal(Statement::grouped);
    reveal_with_fuel(Expression::text, 5);
    reveal_with_fuel(Expression::grouped, 5);
    assert(Layout::Alone.around(Statement::Assign(Place::Register(rd), Expression::Cast(Type::U32, Box::new(Expression::Cast(Type::I32, Box::new(Expression::Cast(Type::I16, Box::new(Expression::Load(16, Box::new(x))))))))).text()) + rest =~= "    ctx->r["@ + (text::dec(rd) + ("] = (uint32_t)(int32_t)(int16_t)mem_read16(ctx, "@ + (x.text() + (");\n"@ + (rest))))));
}

proof fn lemma_letters_46(rest: Seq<char>)
    ensures
        "] = (uint32_t)(int32_t)(int16_t)mem_read16(ctx, "@ + (rest) == "] = "@ + ("(uint32_t)(int32_t)(int16_t)mem_read16"@ + ("(ctx, "@ + (rest))),
{
    reveal_strlit("] = (uint32_t)(int32_t)(int16_t)mem_read16(ctx, ");
    reveal_strlit("] = ");
    reveal_strlit("(uint32_t)(int32_t)(int16_t)mem_read16");
    reveal_strlit("(ctx, ");
    assert("] = (uint32_t)(int32_t)(int16_t)mem_read16(ctx, "@ + (rest) =~= "] = "@ + ("(uint32_t)(int32_t)(int16_t)mem_read16"@ + ("(ctx, "@ + (rest))));
}

pub open spec fn load_signed_half_line(rd: nat, x: Expression) -> Program {
    Program::Then(
        Layout::Alone,
        Statement::Assign(Place::Register(rd), Expression::Cast(Type::U32, Box::new(Expression::Cast(Type::I32, Box::new(Expression::Cast(Type::I16, Box::new(Expression::Load(16, Box::new(x))))))))),
        Box::new(Program::End),
    )
}

pub proof fn lemma_load_signed_half_line(rd: nat, x: Expression)
    requires
        x.grouped(),
    ensures
        load_signed_half_line(rd, x).text() == text::fill("    ctx->r[{}] = {}(ctx, {});"@, seq![text::dec(rd), "(uint32_t)(int32_t)(int16_t)mem_read16"@, x.text()]).push('\n'),
        load_signed_half_line(rd, x).grouped(),
{
    reveal_with_fuel(Program::text, 2);
    reveal_with_fuel(Program::grouped, 2);
    lemma_statement_55(rd, x, Seq::<char>::empty());
    assert("(uint32_t)(int32_t)(int16_t)mem_read16"@ == "(uint32_t)(int32_t)(int16_t)mem_read16"@);
    lemma_text_31(text::dec(rd), "(uint32_t)(int32_t)(int16_t)mem_read16"@, x.text(), "\n"@ + Seq::<char>::empty());
    lemma_letters_41(Seq::<char>::empty());
    lemma_letters_46(x.text() + (");"@ + ("\n"@ + (Seq::<char>::empty()))));
    reveal_strlit("\n");
    assert(text::fill("    ctx->r[{}] = {}(ctx, {});"@, seq![text::dec(rd), "(uint32_t)(int32_t)(int16_t)mem_read16"@, x.text()]).push('\n') =~= text::fill("    ctx->r[{}] = {}(ctx, {});"@, seq![text::dec(rd), "(uint32_t)(int32_t)(int16_t)mem_read16"@, x.text()]) + ("\n"@ + Seq::<char>::empty()));
    assert(load_signed_half_line(rd, x).text() == text::fill("    ctx->r[{}] = {}(ctx, {});"@, seq![text::dec(rd), "(uint32_t)(int32_t)(int16_t)mem_read16"@, x.text()]).push('\n'));
}

proof fn lemma_statement_56(rd: nat, x: Expression, rest: Seq<char>)
    requires
        x.grouped(),
    ensures
        Layout::Alone.around(Statement::Store(32, x, Expression::Register(rd)).text()) + rest == "    mem_write32(ctx, "@ + (x.text() + (", ctx->r["@ + (text::dec(rd) + ("]);\n"@ + (rest))))),
        Statement::Store(32, x, Expression::Register(rd)).grouped(),
{
    reveal_strlit("\n");
    reveal_strlit("    ");
    reveal_strlit("    mem_write32(ctx, ");
    reveal_strlit("(ctx, ");
    reveal_strlit(");");
    reveal_strlit(", ");
    reveal_strlit(", ctx->r[");
    reveal_strlit("32");
    reveal_strlit("]");
    reveal_strlit("]);\n");
    reveal_strlit("ctx->r[");
    reveal_strlit("mem_write");
    small_c::lemma_numbers();
    reveal(Statement::text);
    reveal(Statement::grouped);
    reveal_with_fuel(Expression::text, 2);
    reveal_with_fuel(Expression::grouped, 2);
    assert(Layout::Alone.around(Statement::Store(32, x, Expression::Register(rd)).text()) + rest =~= "    mem_write32(ctx, "@ + (x.text() + (", ctx->r["@ + (text::dec(rd) + ("]);\n"@ + (rest))))));
}

proof fn lemma_text_32(x0: Seq<char>, x1: Seq<char>, x2: Seq<char>, x3: Seq<char>, rest: Seq<char>)
    ensures
        text::fill("    {}(ctx, {}, {}ctx->r[{}]);"@, seq![x0, x1, x2, x3]) + rest == "    "@ + (x0 + ("(ctx, "@ + (x1 + (", "@ + (x2 + ("ctx->r["@ + (x3 + ("]);"@ + (rest))))))))),
{
    reveal_strlit("    {}(ctx, {}, {}ctx->r[{}]);");
    reveal_strlit("{}");
    reveal_strlit("    ");
    reveal_strlit("(ctx, ");
    reveal_strlit(", ");
    reveal_strlit("ctx->r[");
    reveal_strlit("]);");
    assert("    {}(ctx, {}, {}ctx->r[{}]);"@ =~= "    "@ + "{}"@ + ("(ctx, "@ + "{}"@ + (", "@ + "{}"@ + ("ctx->r["@ + "{}"@ + ("]);"@)))));
    let args_0 = seq![x0, x1, x2, x3];
    let args_1 = seq![x1, x2, x3];
    let args_2 = seq![x2, x3];
    let args_3 = seq![x3];
    let args_4 = Seq::<Seq<char>>::empty();
    assert(args_0.skip(1) =~= args_1);
    assert(args_1.skip(1) =~= args_2);
    assert(args_2.skip(1) =~= args_3);
    assert(args_3.skip(1) =~= args_4);
    lemma_hole("    "@, "(ctx, "@ + "{}"@ + (", "@ + "{}"@ + ("ctx->r["@ + "{}"@ + ("]);"@))), args_0);
    lemma_hole("(ctx, "@, ", "@ + "{}"@ + ("ctx->r["@ + "{}"@ + ("]);"@)), args_1);
    lemma_hole(", "@, "ctx->r["@ + "{}"@ + ("]);"@), args_2);
    lemma_hole("ctx->r["@, "]);"@, args_3);
    lemma_plain("]);"@);
    assert(text::fill("    {}(ctx, {}, {}ctx->r[{}]);"@, seq![x0, x1, x2, x3]) + rest =~= "    "@ + (x0 + ("(ctx, "@ + (x1 + (", "@ + (x2 + ("ctx->r["@ + (x3 + ("]);"@ + (rest))))))))));
}

proof fn lemma_letters_47(rest: Seq<char>)
    ensures
        "]);\n"@ + (rest) == "]);"@ + ("\n"@ + (rest)),
{
    reveal_strlit("]);\n");
    reveal_strlit("]);");
    reveal_strlit("\n");
    assert("]);\n"@ + (rest) =~= "]);"@ + ("\n"@ + (rest)));
}

proof fn lemma_letters_48(rest: Seq<char>)
    ensures
        ", ctx->r["@ + (rest) == ", "@ + (""@ + ("ctx->r["@ + (rest))),
{
    reveal_strlit(", ctx->r[");
    reveal_strlit(", ");
    reveal_strlit("");
    reveal_strlit("ctx->r[");
    assert(", ctx->r["@ + (rest) =~= ", "@ + (""@ + ("ctx->r["@ + (rest))));
}

proof fn lemma_letters_49(rest: Seq<char>)
    ensures
        "    mem_write32(ctx, "@ + (rest) == "    "@ + ("mem_write32"@ + ("(ctx, "@ + (rest))),
{
    reveal_strlit("    mem_write32(ctx, ");
    reveal_strlit("    ");
    reveal_strlit("mem_write32");
    reveal_strlit("(ctx, ");
    assert("    mem_write32(ctx, "@ + (rest) =~= "    "@ + ("mem_write32"@ + ("(ctx, "@ + (rest))));
}

pub open spec fn store_word_line(rd: nat, x: Expression) -> Program {
    Program::Then(
        Layout::Alone,
        Statement::Store(32, x, Expression::Register(rd)),
        Box::new(Program::End),
    )
}

pub proof fn lemma_store_word_line(rd: nat, x: Expression)
    requires
        x.grouped(),
    ensures
        store_word_line(rd, x).text() == text::fill("    {}(ctx, {}, {}ctx->r[{}]);"@, seq!["mem_write32"@, x.text(), ""@, text::dec(rd)]).push('\n'),
        store_word_line(rd, x).grouped(),
{
    reveal_with_fuel(Program::text, 2);
    reveal_with_fuel(Program::grouped, 2);
    lemma_statement_56(rd, x, Seq::<char>::empty());
    assert(""@ == ""@);
    assert("mem_write32"@ == "mem_write32"@);
    lemma_text_32("mem_write32"@, x.text(), ""@, text::dec(rd), "\n"@ + Seq::<char>::empty());
    lemma_letters_47(Seq::<char>::empty());
    lemma_letters_48(text::dec(rd) + ("]);"@ + ("\n"@ + (Seq::<char>::empty()))));
    lemma_letters_49(x.text() + (", "@ + (""@ + ("ctx->r["@ + (text::dec(rd) + ("]);"@ + ("\n"@ + (Seq::<char>::empty()))))))));
    reveal_strlit("\n");
    assert(text::fill("    {}(ctx, {}, {}ctx->r[{}]);"@, seq!["mem_write32"@, x.text(), ""@, text::dec(rd)]).push('\n') =~= text::fill("    {}(ctx, {}, {}ctx->r[{}]);"@, seq!["mem_write32"@, x.text(), ""@, text::dec(rd)]) + ("\n"@ + Seq::<char>::empty()));
    assert(store_word_line(rd, x).text() == text::fill("    {}(ctx, {}, {}ctx->r[{}]);"@, seq!["mem_write32"@, x.text(), ""@, text::dec(rd)]).push('\n'));
}

proof fn lemma_statement_57(rd: nat, x: Expression, rest: Seq<char>)
    requires
        x.grouped(),
    ensures
        Layout::Alone.around(Statement::Store(16, x, Expression::Cast(Type::U16, Box::new(Expression::Register(rd)))).text()) + rest == "    mem_write16(ctx, "@ + (x.text() + (", (uint16_t)ctx->r["@ + (text::dec(rd) + ("]);\n"@ + (rest))))),
        Statement::Store(16, x, Expression::Cast(Type::U16, Box::new(Expression::Register(rd)))).grouped(),
{
    reveal_strlit("\n");
    reveal_strlit("    ");
    reveal_strlit("    mem_write16(ctx, ");
    reveal_strlit("(");
    reveal_strlit("(ctx, ");
    reveal_strlit(")");
    reveal_strlit(");");
    reveal_strlit(", ");
    reveal_strlit(", (uint16_t)ctx->r[");
    reveal_strlit("16");
    reveal_strlit("]");
    reveal_strlit("]);\n");
    reveal_strlit("ctx->r[");
    reveal_strlit("mem_write");
    reveal_strlit("uint16_t");
    small_c::lemma_numbers();
    reveal(Statement::text);
    reveal(Statement::grouped);
    reveal_with_fuel(Expression::text, 3);
    reveal_with_fuel(Expression::grouped, 3);
    assert(Layout::Alone.around(Statement::Store(16, x, Expression::Cast(Type::U16, Box::new(Expression::Register(rd)))).text()) + rest =~= "    mem_write16(ctx, "@ + (x.text() + (", (uint16_t)ctx->r["@ + (text::dec(rd) + ("]);\n"@ + (rest))))));
}

proof fn lemma_letters_50(rest: Seq<char>)
    ensures
        ", (uint16_t)ctx->r["@ + (rest) == ", "@ + ("(uint16_t)"@ + ("ctx->r["@ + (rest))),
{
    reveal_strlit(", (uint16_t)ctx->r[");
    reveal_strlit(", ");
    reveal_strlit("(uint16_t)");
    reveal_strlit("ctx->r[");
    assert(", (uint16_t)ctx->r["@ + (rest) =~= ", "@ + ("(uint16_t)"@ + ("ctx->r["@ + (rest))));
}

proof fn lemma_letters_51(rest: Seq<char>)
    ensures
        "    mem_write16(ctx, "@ + (rest) == "    "@ + ("mem_write16"@ + ("(ctx, "@ + (rest))),
{
    reveal_strlit("    mem_write16(ctx, ");
    reveal_strlit("    ");
    reveal_strlit("mem_write16");
    reveal_strlit("(ctx, ");
    assert("    mem_write16(ctx, "@ + (rest) =~= "    "@ + ("mem_write16"@ + ("(ctx, "@ + (rest))));
}

pub open spec fn store_half_line(rd: nat, x: Expression) -> Program {
    Program::Then(
        Layout::Alone,
        Statement::Store(16, x, Expression::Cast(Type::U16, Box::new(Expression::Register(rd)))),
        Box::new(Program::End),
    )
}

pub proof fn lemma_store_half_line(rd: nat, x: Expression)
    requires
        x.grouped(),
    ensures
        store_half_line(rd, x).text() == text::fill("    {}(ctx, {}, {}ctx->r[{}]);"@, seq!["mem_write16"@, x.text(), "(uint16_t)"@, text::dec(rd)]).push('\n'),
        store_half_line(rd, x).grouped(),
{
    reveal_with_fuel(Program::text, 2);
    reveal_with_fuel(Program::grouped, 2);
    lemma_statement_57(rd, x, Seq::<char>::empty());
    assert("(uint16_t)"@ == "(uint16_t)"@);
    assert("mem_write16"@ == "mem_write16"@);
    lemma_text_32("mem_write16"@, x.text(), "(uint16_t)"@, text::dec(rd), "\n"@ + Seq::<char>::empty());
    lemma_letters_47(Seq::<char>::empty());
    lemma_letters_50(text::dec(rd) + ("]);"@ + ("\n"@ + (Seq::<char>::empty()))));
    lemma_letters_51(x.text() + (", "@ + ("(uint16_t)"@ + ("ctx->r["@ + (text::dec(rd) + ("]);"@ + ("\n"@ + (Seq::<char>::empty()))))))));
    reveal_strlit("\n");
    assert(text::fill("    {}(ctx, {}, {}ctx->r[{}]);"@, seq!["mem_write16"@, x.text(), "(uint16_t)"@, text::dec(rd)]).push('\n') =~= text::fill("    {}(ctx, {}, {}ctx->r[{}]);"@, seq!["mem_write16"@, x.text(), "(uint16_t)"@, text::dec(rd)]) + ("\n"@ + Seq::<char>::empty()));
    assert(store_half_line(rd, x).text() == text::fill("    {}(ctx, {}, {}ctx->r[{}]);"@, seq!["mem_write16"@, x.text(), "(uint16_t)"@, text::dec(rd)]).push('\n'));
}

proof fn lemma_statement_58(rd: nat, x: Expression, rest: Seq<char>)
    requires
        x.grouped(),
    ensures
        Layout::Alone.around(Statement::Store(8, x, Expression::Cast(Type::U8, Box::new(Expression::Register(rd)))).text()) + rest == "    mem_write8(ctx, "@ + (x.text() + (", (uint8_t)ctx->r["@ + (text::dec(rd) + ("]);\n"@ + (rest))))),
        Statement::Store(8, x, Expression::Cast(Type::U8, Box::new(Expression::Register(rd)))).grouped(),
{
    reveal_strlit("\n");
    reveal_strlit("    ");
    reveal_strlit("    mem_write8(ctx, ");
    reveal_strlit("(");
    reveal_strlit("(ctx, ");
    reveal_strlit(")");
    reveal_strlit(");");
    reveal_strlit(", ");
    reveal_strlit(", (uint8_t)ctx->r[");
    reveal_strlit("8");
    reveal_strlit("]");
    reveal_strlit("]);\n");
    reveal_strlit("ctx->r[");
    reveal_strlit("mem_write");
    reveal_strlit("uint8_t");
    small_c::lemma_numbers();
    reveal(Statement::text);
    reveal(Statement::grouped);
    reveal_with_fuel(Expression::text, 3);
    reveal_with_fuel(Expression::grouped, 3);
    assert(Layout::Alone.around(Statement::Store(8, x, Expression::Cast(Type::U8, Box::new(Expression::Register(rd)))).text()) + rest =~= "    mem_write8(ctx, "@ + (x.text() + (", (uint8_t)ctx->r["@ + (text::dec(rd) + ("]);\n"@ + (rest))))));
}

proof fn lemma_letters_52(rest: Seq<char>)
    ensures
        ", (uint8_t)ctx->r["@ + (rest) == ", "@ + ("(uint8_t)"@ + ("ctx->r["@ + (rest))),
{
    reveal_strlit(", (uint8_t)ctx->r[");
    reveal_strlit(", ");
    reveal_strlit("(uint8_t)");
    reveal_strlit("ctx->r[");
    assert(", (uint8_t)ctx->r["@ + (rest) =~= ", "@ + ("(uint8_t)"@ + ("ctx->r["@ + (rest))));
}

proof fn lemma_letters_53(rest: Seq<char>)
    ensures
        "    mem_write8(ctx, "@ + (rest) == "    "@ + ("mem_write8"@ + ("(ctx, "@ + (rest))),
{
    reveal_strlit("    mem_write8(ctx, ");
    reveal_strlit("    ");
    reveal_strlit("mem_write8");
    reveal_strlit("(ctx, ");
    assert("    mem_write8(ctx, "@ + (rest) =~= "    "@ + ("mem_write8"@ + ("(ctx, "@ + (rest))));
}

pub open spec fn store_byte_line(rd: nat, x: Expression) -> Program {
    Program::Then(
        Layout::Alone,
        Statement::Store(8, x, Expression::Cast(Type::U8, Box::new(Expression::Register(rd)))),
        Box::new(Program::End),
    )
}

pub proof fn lemma_store_byte_line(rd: nat, x: Expression)
    requires
        x.grouped(),
    ensures
        store_byte_line(rd, x).text() == text::fill("    {}(ctx, {}, {}ctx->r[{}]);"@, seq!["mem_write8"@, x.text(), "(uint8_t)"@, text::dec(rd)]).push('\n'),
        store_byte_line(rd, x).grouped(),
{
    reveal_with_fuel(Program::text, 2);
    reveal_with_fuel(Program::grouped, 2);
    lemma_statement_58(rd, x, Seq::<char>::empty());
    assert("(uint8_t)"@ == "(uint8_t)"@);
    assert("mem_write8"@ == "mem_write8"@);
    lemma_text_32("mem_write8"@, x.text(), "(uint8_t)"@, text::dec(rd), "\n"@ + Seq::<char>::empty());
    lemma_letters_47(Seq::<char>::empty());
    lemma_letters_52(text::dec(rd) + ("]);"@ + ("\n"@ + (Seq::<char>::empty()))));
    lemma_letters_53(x.text() + (", "@ + ("(uint8_t)"@ + ("ctx->r["@ + (text::dec(rd) + ("]);"@ + ("\n"@ + (Seq::<char>::empty()))))))));
    reveal_strlit("\n");
    assert(text::fill("    {}(ctx, {}, {}ctx->r[{}]);"@, seq!["mem_write8"@, x.text(), "(uint8_t)"@, text::dec(rd)]).push('\n') =~= text::fill("    {}(ctx, {}, {}ctx->r[{}]);"@, seq!["mem_write8"@, x.text(), "(uint8_t)"@, text::dec(rd)]) + ("\n"@ + Seq::<char>::empty()));
    assert(store_byte_line(rd, x).text() == text::fill("    {}(ctx, {}, {}ctx->r[{}]);"@, seq!["mem_write8"@, x.text(), "(uint8_t)"@, text::dec(rd)]).push('\n'));
}

proof fn lemma_text_33(x0: Seq<char>, x1: Seq<char>, rest: Seq<char>)
    ensures
        text::fill("ctx->r[{}] + 0x{}u"@, seq![x0, x1]) + rest == "ctx->r["@ + (x0 + ("] + 0x"@ + (x1 + ("u"@ + (rest))))),
{
    reveal_strlit("ctx->r[{}] + 0x{}u");
    reveal_strlit("{}");
    reveal_strlit("ctx->r[");
    reveal_strlit("] + 0x");
    reveal_strlit("u");
    assert("ctx->r[{}] + 0x{}u"@ =~= "ctx->r["@ + "{}"@ + ("] + 0x"@ + "{}"@ + ("u"@)));
    let args_0 = seq![x0, x1];
    let args_1 = seq![x1];
    let args_2 = Seq::<Seq<char>>::empty();
    assert(args_0.skip(1) =~= args_1);
    assert(args_1.skip(1) =~= args_2);
    lemma_hole("ctx->r["@, "] + 0x"@ + "{}"@ + ("u"@), args_0);
    lemma_hole("] + 0x"@, "u"@, args_1);
    lemma_plain("u"@);
    assert(text::fill("ctx->r[{}] + 0x{}u"@, seq![x0, x1]) + rest =~= "ctx->r["@ + (x0 + ("] + 0x"@ + (x1 + ("u"@ + (rest))))));
}

pub open spec fn offset_expression(rb: nat, n: nat) -> Expression {
    Expression::Two(Operator::Plus, Box::new(Expression::Register(rb)), Box::new(Expression::Hex { number: n, width: 0, unsigned: true }))
}

pub proof fn lemma_offset_expression(rb: nat, n: nat)
    ensures
        offset_expression(rb, n).text() == text::fill("ctx->r[{}] + 0x{}u"@, seq![text::dec(rb), text::hex(n)]),
        offset_expression(rb, n).grouped(),
{
    reveal_strlit(" + ");
    reveal_strlit("0x");
    reveal_strlit("]");
    reveal_strlit("] + 0x");
    reveal_strlit("ctx->r[");
    reveal_strlit("u");
    small_c::lemma_numbers();
    assert(text::hex_wide(n, 0) =~= text::hex(n));
    lemma_text_33(text::dec(rb), text::hex(n), Seq::<char>::empty());
    reveal_with_fuel(Expression::text, 3);
    reveal_with_fuel(Expression::grouped, 3);
    let whole = text::fill("ctx->r[{}] + 0x{}u"@, seq![text::dec(rb), text::hex(n)]) + Seq::<char>::empty();
    assert(whole =~= text::fill("ctx->r[{}] + 0x{}u"@, seq![text::dec(rb), text::hex(n)]));
    assert(offset_expression(rb, n).text() =~= whole);
}

proof fn lemma_text_34(x0: Seq<char>, x1: Seq<char>, rest: Seq<char>)
    ensures
        text::fill("ctx->r[{}] + ctx->r[{}]"@, seq![x0, x1]) + rest == "ctx->r["@ + (x0 + ("] + ctx->r["@ + (x1 + ("]"@ + (rest))))),
{
    reveal_strlit("ctx->r[{}] + ctx->r[{}]");
    reveal_strlit("{}");
    reveal_strlit("ctx->r[");
    reveal_strlit("] + ctx->r[");
    reveal_strlit("]");
    assert("ctx->r[{}] + ctx->r[{}]"@ =~= "ctx->r["@ + "{}"@ + ("] + ctx->r["@ + "{}"@ + ("]"@)));
    let args_0 = seq![x0, x1];
    let args_1 = seq![x1];
    let args_2 = Seq::<Seq<char>>::empty();
    assert(args_0.skip(1) =~= args_1);
    assert(args_1.skip(1) =~= args_2);
    lemma_hole("ctx->r["@, "] + ctx->r["@ + "{}"@ + ("]"@), args_0);
    lemma_hole("] + ctx->r["@, "]"@, args_1);
    lemma_plain("]"@);
    assert(text::fill("ctx->r[{}] + ctx->r[{}]"@, seq![x0, x1]) + rest =~= "ctx->r["@ + (x0 + ("] + ctx->r["@ + (x1 + ("]"@ + (rest))))));
}

pub open spec fn sum_expression(rb: nat, ro: nat) -> Expression {
    Expression::Two(Operator::Plus, Box::new(Expression::Register(rb)), Box::new(Expression::Register(ro)))
}

pub proof fn lemma_sum_expression(rb: nat, ro: nat)
    ensures
        sum_expression(rb, ro).text() == text::fill("ctx->r[{}] + ctx->r[{}]"@, seq![text::dec(rb), text::dec(ro)]),
        sum_expression(rb, ro).grouped(),
{
    reveal_strlit(" + ");
    reveal_strlit("]");
    reveal_strlit("] + ctx->r[");
    reveal_strlit("ctx->r[");
    small_c::lemma_numbers();
    lemma_text_34(text::dec(rb), text::dec(ro), Seq::<char>::empty());
    reveal_with_fuel(Expression::text, 3);
    reveal_with_fuel(Expression::grouped, 3);
    let whole = text::fill("ctx->r[{}] + ctx->r[{}]"@, seq![text::dec(rb), text::dec(ro)]) + Seq::<char>::empty();
    assert(whole =~= text::fill("ctx->r[{}] + ctx->r[{}]"@, seq![text::dec(rb), text::dec(ro)]));
    assert(sum_expression(rb, ro).text() =~= whole);
}

proof fn lemma_statement_59(rd: nat, n: nat, rest: Seq<char>)
    ensures
        Layout::Alone.around(Statement::Assign(Place::Register(rd), Expression::Two(Operator::Plus, Box::new(Expression::Register(13)), Box::new(Expression::Hex { number: n, width: 0, unsigned: true }))).text()) + rest == "    ctx->r["@ + (text::dec(rd) + ("] = ctx->r[13] + 0x"@ + (text::hex(n) + ("u;\n"@ + (rest))))),
        Statement::Assign(Place::Register(rd), Expression::Two(Operator::Plus, Box::new(Expression::Register(13)), Box::new(Expression::Hex { number: n, width: 0, unsigned: true }))).grouped(),
{
    reveal_strlit("\n");
    reveal_strlit("    ");
    reveal_strlit("    ctx->r[");
    reveal_strlit(" + ");
    reveal_strlit(" = ");
    reveal_strlit("0x");
    reveal_strlit("13");
    reveal_strlit(";");
    reveal_strlit("]");
    reveal_strlit("] = ctx->r[13] + 0x");
    reveal_strlit("ctx->r[");
    reveal_strlit("u");
    reveal_strlit("u;\n");
    small_c::lemma_numbers();
    assert(text::hex_wide(n, 0) =~= text::hex(n));
    reveal(Statement::text);
    reveal(Statement::grouped);
    reveal_with_fuel(Expression::text, 3);
    reveal_with_fuel(Expression::grouped, 3);
    assert(Layout::Alone.around(Statement::Assign(Place::Register(rd), Expression::Two(Operator::Plus, Box::new(Expression::Register(13)), Box::new(Expression::Hex { number: n, width: 0, unsigned: true }))).text()) + rest =~= "    ctx->r["@ + (text::dec(rd) + ("] = ctx->r[13] + 0x"@ + (text::hex(n) + ("u;\n"@ + (rest))))));
}

proof fn lemma_text_35(x0: Seq<char>, x1: Seq<char>, rest: Seq<char>)
    ensures
        text::fill("    ctx->r[{}] = ctx->r[13] + 0x{}u;"@, seq![x0, x1]) + rest == "    ctx->r["@ + (x0 + ("] = ctx->r[13] + 0x"@ + (x1 + ("u;"@ + (rest))))),
{
    reveal_strlit("    ctx->r[{}] = ctx->r[13] + 0x{}u;");
    reveal_strlit("{}");
    reveal_strlit("    ctx->r[");
    reveal_strlit("] = ctx->r[13] + 0x");
    reveal_strlit("u;");
    assert("    ctx->r[{}] = ctx->r[13] + 0x{}u;"@ =~= "    ctx->r["@ + "{}"@ + ("] = ctx->r[13] + 0x"@ + "{}"@ + ("u;"@)));
    let args_0 = seq![x0, x1];
    let args_1 = seq![x1];
    let args_2 = Seq::<Seq<char>>::empty();
    assert(args_0.skip(1) =~= args_1);
    assert(args_1.skip(1) =~= args_2);
    lemma_hole("    ctx->r["@, "] = ctx->r[13] + 0x"@ + "{}"@ + ("u;"@), args_0);
    lemma_hole("] = ctx->r[13] + 0x"@, "u;"@, args_1);
    lemma_plain("u;"@);
    assert(text::fill("    ctx->r[{}] = ctx->r[13] + 0x{}u;"@, seq![x0, x1]) + rest =~= "    ctx->r["@ + (x0 + ("] = ctx->r[13] + 0x"@ + (x1 + ("u;"@ + (rest))))));
}

proof fn lemma_letters_54(rest: Seq<char>)
    ensures
        "u;\n"@ + (rest) == "u;"@ + ("\n"@ + (rest)),
{
    reveal_strlit("u;\n");
    reveal_strlit("u;");
    reveal_strlit("\n");
    assert("u;\n"@ + (rest) =~= "u;"@ + ("\n"@ + (rest)));
}

pub open spec fn stack_address_line(rd: nat, n: nat) -> Program {
    Program::Then(
        Layout::Alone,
        Statement::Assign(Place::Register(rd), Expression::Two(Operator::Plus, Box::new(Expression::Register(13)), Box::new(Expression::Hex { number: n, width: 0, unsigned: true }))),
        Box::new(Program::End),
    )
}

pub proof fn lemma_stack_address_line(rd: nat, n: nat)
    ensures
        stack_address_line(rd, n).text() == text::fill("    ctx->r[{}] = ctx->r[13] + 0x{}u;"@, seq![text::dec(rd), text::hex(n)]).push('\n'),
        stack_address_line(rd, n).grouped(),
{
    reveal_with_fuel(Program::text, 2);
    reveal_with_fuel(Program::grouped, 2);
    lemma_statement_59(rd, n, Seq::<char>::empty());
    lemma_text_35(text::dec(rd), text::hex(n), "\n"@ + Seq::<char>::empty());
    lemma_letters_54(Seq::<char>::empty());
    reveal_strlit("\n");
    assert(text::fill("    ctx->r[{}] = ctx->r[13] + 0x{}u;"@, seq![text::dec(rd), text::hex(n)]).push('\n') =~= text::fill("    ctx->r[{}] = ctx->r[13] + 0x{}u;"@, seq![text::dec(rd), text::hex(n)]) + ("\n"@ + Seq::<char>::empty()));
    assert(stack_address_line(rd, n).text() == text::fill("    ctx->r[{}] = ctx->r[13] + 0x{}u;"@, seq![text::dec(rd), text::hex(n)]).push('\n'));
}

proof fn lemma_statement_60(n: nat, rest: Seq<char>)
    ensures
        Layout::Alone.around(Statement::Assign(Place::Register(13), Expression::Two(Operator::Plus, Box::new(Expression::Register(13)), Box::new(Expression::Hex { number: n, width: 0, unsigned: true }))).text()) + rest == "    ctx->r[13] = ctx->r[13] + 0x"@ + (text::hex(n) + ("u;\n"@ + (rest))),
        Statement::Assign(Place::Register(13), Expression::Two(Operator::Plus, Box::new(Expression::Register(13)), Box::new(Expression::Hex { number: n, width: 0, unsigned: true }))).grouped(),
{
    reveal_strlit("\n");
    reveal_strlit("    ");
    reveal_strlit("    ctx->r[13] = ctx->r[13] + 0x");
    reveal_strlit(" + ");
    reveal_strlit(" = ");
    reveal_strlit("0x");
    reveal_strlit("13");
    reveal_strlit(";");
    reveal_strlit("]");
    reveal_strlit("ctx->r[");
    reveal_strlit("u");
    reveal_strlit("u;\n");
    small_c::lemma_numbers();
    assert(text::hex_wide(n, 0) =~= text::hex(n));
    reveal(Statement::text);
    reveal(Statement::grouped);
    reveal_with_fuel(Expression::text, 3);
    reveal_with_fuel(Expression::grouped, 3);
    assert(Layout::Alone.around(Statement::Assign(Place::Register(13), Expression::Two(Operator::Plus, Box::new(Expression::Register(13)), Box::new(Expression::Hex { number: n, width: 0, unsigned: true }))).text()) + rest =~= "    ctx->r[13] = ctx->r[13] + 0x"@ + (text::hex(n) + ("u;\n"@ + (rest))));
}

proof fn lemma_text_36(x0: Seq<char>, x1: Seq<char>, rest: Seq<char>)
    ensures
        text::fill("    ctx->r[13] = ctx->r[13] {} 0x{}u;"@, seq![x0, x1]) + rest == "    ctx->r[13] = ctx->r[13] "@ + (x0 + (" 0x"@ + (x1 + ("u;"@ + (rest))))),
{
    reveal_strlit("    ctx->r[13] = ctx->r[13] {} 0x{}u;");
    reveal_strlit("{}");
    reveal_strlit("    ctx->r[13] = ctx->r[13] ");
    reveal_strlit(" 0x");
    reveal_strlit("u;");
    assert("    ctx->r[13] = ctx->r[13] {} 0x{}u;"@ =~= "    ctx->r[13] = ctx->r[13] "@ + "{}"@ + (" 0x"@ + "{}"@ + ("u;"@)));
    let args_0 = seq![x0, x1];
    let args_1 = seq![x1];
    let args_2 = Seq::<Seq<char>>::empty();
    assert(args_0.skip(1) =~= args_1);
    assert(args_1.skip(1) =~= args_2);
    lemma_hole("    ctx->r[13] = ctx->r[13] "@, " 0x"@ + "{}"@ + ("u;"@), args_0);
    lemma_hole(" 0x"@, "u;"@, args_1);
    lemma_plain("u;"@);
    assert(text::fill("    ctx->r[13] = ctx->r[13] {} 0x{}u;"@, seq![x0, x1]) + rest =~= "    ctx->r[13] = ctx->r[13] "@ + (x0 + (" 0x"@ + (x1 + ("u;"@ + (rest))))));
}

proof fn lemma_letters_55(rest: Seq<char>)
    ensures
        "    ctx->r[13] = ctx->r[13] + 0x"@ + (rest) == "    ctx->r[13] = ctx->r[13] "@ + ("+"@ + (" 0x"@ + (rest))),
{
    reveal_strlit("    ctx->r[13] = ctx->r[13] + 0x");
    reveal_strlit("    ctx->r[13] = ctx->r[13] ");
    reveal_strlit("+");
    reveal_strlit(" 0x");
    assert("    ctx->r[13] = ctx->r[13] + 0x"@ + (rest) =~= "    ctx->r[13] = ctx->r[13] "@ + ("+"@ + (" 0x"@ + (rest))));
}

pub open spec fn stack_up_line(n: nat) -> Program {
    Program::Then(
        Layout::Alone,
        Statement::Assign(Place::Register(13), Expression::Two(Operator::Plus, Box::new(Expression::Register(13)), Box::new(Expression::Hex { number: n, width: 0, unsigned: true }))),
        Box::new(Program::End),
    )
}

pub proof fn lemma_stack_up_line(n: nat)
    ensures
        stack_up_line(n).text() == text::fill("    ctx->r[13] = ctx->r[13] {} 0x{}u;"@, seq!["+"@, text::hex(n)]).push('\n'),
        stack_up_line(n).grouped(),
{
    reveal_with_fuel(Program::text, 2);
    reveal_with_fuel(Program::grouped, 2);
    lemma_statement_60(n, Seq::<char>::empty());
    assert("+"@ == "+"@);
    lemma_text_36("+"@, text::hex(n), "\n"@ + Seq::<char>::empty());
    lemma_letters_54(Seq::<char>::empty());
    lemma_letters_55(text::hex(n) + ("u;"@ + ("\n"@ + (Seq::<char>::empty()))));
    reveal_strlit("\n");
    assert(text::fill("    ctx->r[13] = ctx->r[13] {} 0x{}u;"@, seq!["+"@, text::hex(n)]).push('\n') =~= text::fill("    ctx->r[13] = ctx->r[13] {} 0x{}u;"@, seq!["+"@, text::hex(n)]) + ("\n"@ + Seq::<char>::empty()));
    assert(stack_up_line(n).text() == text::fill("    ctx->r[13] = ctx->r[13] {} 0x{}u;"@, seq!["+"@, text::hex(n)]).push('\n'));
}

proof fn lemma_statement_61(n: nat, rest: Seq<char>)
    ensures
        Layout::Alone.around(Statement::Assign(Place::Register(13), Expression::Two(Operator::Minus, Box::new(Expression::Register(13)), Box::new(Expression::Hex { number: n, width: 0, unsigned: true }))).text()) + rest == "    ctx->r[13] = ctx->r[13] - 0x"@ + (text::hex(n) + ("u;\n"@ + (rest))),
        Statement::Assign(Place::Register(13), Expression::Two(Operator::Minus, Box::new(Expression::Register(13)), Box::new(Expression::Hex { number: n, width: 0, unsigned: true }))).grouped(),
{
    reveal_strlit("\n");
    reveal_strlit("    ");
    reveal_strlit("    ctx->r[13] = ctx->r[13] - 0x");
    reveal_strlit(" - ");
    reveal_strlit(" = ");
    reveal_strlit("0x");
    reveal_strlit("13");
    reveal_strlit(";");
    reveal_strlit("]");
    reveal_strlit("ctx->r[");
    reveal_strlit("u");
    reveal_strlit("u;\n");
    small_c::lemma_numbers();
    assert(text::hex_wide(n, 0) =~= text::hex(n));
    reveal(Statement::text);
    reveal(Statement::grouped);
    reveal_with_fuel(Expression::text, 3);
    reveal_with_fuel(Expression::grouped, 3);
    assert(Layout::Alone.around(Statement::Assign(Place::Register(13), Expression::Two(Operator::Minus, Box::new(Expression::Register(13)), Box::new(Expression::Hex { number: n, width: 0, unsigned: true }))).text()) + rest =~= "    ctx->r[13] = ctx->r[13] - 0x"@ + (text::hex(n) + ("u;\n"@ + (rest))));
}

proof fn lemma_letters_56(rest: Seq<char>)
    ensures
        "    ctx->r[13] = ctx->r[13] - 0x"@ + (rest) == "    ctx->r[13] = ctx->r[13] "@ + ("-"@ + (" 0x"@ + (rest))),
{
    reveal_strlit("    ctx->r[13] = ctx->r[13] - 0x");
    reveal_strlit("    ctx->r[13] = ctx->r[13] ");
    reveal_strlit("-");
    reveal_strlit(" 0x");
    assert("    ctx->r[13] = ctx->r[13] - 0x"@ + (rest) =~= "    ctx->r[13] = ctx->r[13] "@ + ("-"@ + (" 0x"@ + (rest))));
}

pub open spec fn stack_down_line(n: nat) -> Program {
    Program::Then(
        Layout::Alone,
        Statement::Assign(Place::Register(13), Expression::Two(Operator::Minus, Box::new(Expression::Register(13)), Box::new(Expression::Hex { number: n, width: 0, unsigned: true }))),
        Box::new(Program::End),
    )
}

pub proof fn lemma_stack_down_line(n: nat)
    ensures
        stack_down_line(n).text() == text::fill("    ctx->r[13] = ctx->r[13] {} 0x{}u;"@, seq!["-"@, text::hex(n)]).push('\n'),
        stack_down_line(n).grouped(),
{
    reveal_with_fuel(Program::text, 2);
    reveal_with_fuel(Program::grouped, 2);
    lemma_statement_61(n, Seq::<char>::empty());
    assert("-"@ == "-"@);
    lemma_text_36("-"@, text::hex(n), "\n"@ + Seq::<char>::empty());
    lemma_letters_54(Seq::<char>::empty());
    lemma_letters_56(text::hex(n) + ("u;"@ + ("\n"@ + (Seq::<char>::empty()))));
    reveal_strlit("\n");
    assert(text::fill("    ctx->r[13] = ctx->r[13] {} 0x{}u;"@, seq!["-"@, text::hex(n)]).push('\n') =~= text::fill("    ctx->r[13] = ctx->r[13] {} 0x{}u;"@, seq!["-"@, text::hex(n)]) + ("\n"@ + Seq::<char>::empty()));
    assert(stack_down_line(n).text() == text::fill("    ctx->r[13] = ctx->r[13] {} 0x{}u;"@, seq!["-"@, text::hex(n)]).push('\n'));
}

proof fn lemma_text_37(x0: Seq<char>, rest: Seq<char>)
    ensures
        text::fill("(uint32_t)(int32_t)(int16_t){}"@, seq![x0]) + rest == "(uint32_t)(int32_t)(int16_t)"@ + (x0 + (rest)),
{
    reveal_strlit("(uint32_t)(int32_t)(int16_t){}");
    reveal_strlit("{}");
    reveal_strlit("(uint32_t)(int32_t)(int16_t)");
    reveal_strlit("");
    assert("(uint32_t)(int32_t)(int16_t){}"@ =~= "(uint32_t)(int32_t)(int16_t)"@ + "{}"@ + (""@));
    let args_0 = seq![x0];
    let args_1 = Seq::<Seq<char>>::empty();
    assert(args_0.skip(1) =~= args_1);
    lemma_hole("(uint32_t)(int32_t)(int16_t)"@, ""@, args_0);
    lemma_plain(""@);
    assert(text::fill("(uint32_t)(int32_t)(int16_t){}"@, seq![x0]) + rest =~= "(uint32_t)(int32_t)(int16_t)"@ + (x0 + (rest)));
}

proof fn lemma_text_38(x0: Seq<char>, rest: Seq<char>)
    ensures
        text::fill("ctx->r[{}]"@, seq![x0]) + rest == "ctx->r["@ + (x0 + ("]"@ + (rest))),
{
    reveal_strlit("ctx->r[{}]");
    reveal_strlit("{}");
    reveal_strlit("ctx->r[");
    reveal_strlit("]");
    assert("ctx->r[{}]"@ =~= "ctx->r["@ + "{}"@ + ("]"@));
    let args_0 = seq![x0];
    let args_1 = Seq::<Seq<char>>::empty();
    assert(args_0.skip(1) =~= args_1);
    lemma_hole("ctx->r["@, "]"@, args_0);
    lemma_plain("]"@);
    assert(text::fill("ctx->r[{}]"@, seq![x0]) + rest =~= "ctx->r["@ + (x0 + ("]"@ + (rest))));
}

pub open spec fn extend_half(rs: nat) -> Expression {
    Expression::Cast(Type::U32, Box::new(Expression::Cast(Type::I32, Box::new(Expression::Cast(Type::I16, Box::new(Expression::Register(rs)))))))
}

#[verifier::rlimit(60)]
pub proof fn lemma_extend_half(rs: nat)
    ensures
        extend_half(rs).text() == text::fill("(uint32_t)(int32_t)(int16_t){}"@, seq![text::fill("ctx->r[{}]"@, seq![text::dec(rs)])]),
        extend_half(rs).grouped(),
{
    reveal_strlit("(");
    reveal_strlit("(uint32_t)(int32_t)(int16_t)");
    reveal_strlit(")");
    reveal_strlit("]");
    reveal_strlit("ctx->r[");
    reveal_strlit("int16_t");
    reveal_strlit("int32_t");
    reveal_strlit("uint32_t");
    small_c::lemma_numbers();
    lemma_text_38(text::dec(rs), Seq::<char>::empty());
    lemma_text_37(text::fill("ctx->r[{}]"@, seq![text::dec(rs)]), Seq::<char>::empty());
    reveal_with_fuel(Expression::text, 5);
    reveal_with_fuel(Expression::grouped, 5);
    let whole = text::fill("(uint32_t)(int32_t)(int16_t){}"@, seq![text::fill("ctx->r[{}]"@, seq![text::dec(rs)])]) + Seq::<char>::empty();
    assert(whole =~= text::fill("(uint32_t)(int32_t)(int16_t){}"@, seq![text::fill("ctx->r[{}]"@, seq![text::dec(rs)])]));
    assert(extend_half(rs).text() =~= whole);
}

proof fn lemma_text_39(x0: Seq<char>, rest: Seq<char>)
    ensures
        text::fill("(uint32_t)(int32_t)(int8_t){}"@, seq![x0]) + rest == "(uint32_t)(int32_t)(int8_t)"@ + (x0 + (rest)),
{
    reveal_strlit("(uint32_t)(int32_t)(int8_t){}");
    reveal_strlit("{}");
    reveal_strlit("(uint32_t)(int32_t)(int8_t)");
    reveal_strlit("");
    assert("(uint32_t)(int32_t)(int8_t){}"@ =~= "(uint32_t)(int32_t)(int8_t)"@ + "{}"@ + (""@));
    let args_0 = seq![x0];
    let args_1 = Seq::<Seq<char>>::empty();
    assert(args_0.skip(1) =~= args_1);
    lemma_hole("(uint32_t)(int32_t)(int8_t)"@, ""@, args_0);
    lemma_plain(""@);
    assert(text::fill("(uint32_t)(int32_t)(int8_t){}"@, seq![x0]) + rest =~= "(uint32_t)(int32_t)(int8_t)"@ + (x0 + (rest)));
}

pub open spec fn extend_byte(rs: nat) -> Expression {
    Expression::Cast(Type::U32, Box::new(Expression::Cast(Type::I32, Box::new(Expression::Cast(Type::I8, Box::new(Expression::Register(rs)))))))
}

#[verifier::rlimit(60)]
pub proof fn lemma_extend_byte(rs: nat)
    ensures
        extend_byte(rs).text() == text::fill("(uint32_t)(int32_t)(int8_t){}"@, seq![text::fill("ctx->r[{}]"@, seq![text::dec(rs)])]),
        extend_byte(rs).grouped(),
{
    reveal_strlit("(");
    reveal_strlit("(uint32_t)(int32_t)(int8_t)");
    reveal_strlit(")");
    reveal_strlit("]");
    reveal_strlit("ctx->r[");
    reveal_strlit("int32_t");
    reveal_strlit("int8_t");
    reveal_strlit("uint32_t");
    small_c::lemma_numbers();
    lemma_text_38(text::dec(rs), Seq::<char>::empty());
    lemma_text_39(text::fill("ctx->r[{}]"@, seq![text::dec(rs)]), Seq::<char>::empty());
    reveal_with_fuel(Expression::text, 5);
    reveal_with_fuel(Expression::grouped, 5);
    let whole = text::fill("(uint32_t)(int32_t)(int8_t){}"@, seq![text::fill("ctx->r[{}]"@, seq![text::dec(rs)])]) + Seq::<char>::empty();
    assert(whole =~= text::fill("(uint32_t)(int32_t)(int8_t){}"@, seq![text::fill("ctx->r[{}]"@, seq![text::dec(rs)])]));
    assert(extend_byte(rs).text() =~= whole);
}

proof fn lemma_text_40(x0: Seq<char>, rest: Seq<char>)
    ensures
        text::fill("({} & 0xFFFF)"@, seq![x0]) + rest == "("@ + (x0 + (" & 0xFFFF)"@ + (rest))),
{
    reveal_strlit("({} & 0xFFFF)");
    reveal_strlit("{}");
    reveal_strlit("(");
    reveal_strlit(" & 0xFFFF)");
    assert("({} & 0xFFFF)"@ =~= "("@ + "{}"@ + (" & 0xFFFF)"@));
    let args_0 = seq![x0];
    let args_1 = Seq::<Seq<char>>::empty();
    assert(args_0.skip(1) =~= args_1);
    lemma_hole("("@, " & 0xFFFF)"@, args_0);
    lemma_plain(" & 0xFFFF)"@);
    assert(text::fill("({} & 0xFFFF)"@, seq![x0]) + rest =~= "("@ + (x0 + (" & 0xFFFF)"@ + (rest))));
}

pub open spec fn low_half(rs: nat) -> Expression {
    Expression::Group(Box::new(Expression::Two(Operator::And, Box::new(Expression::Register(rs)), Box::new(Expression::Hex { number: 0xFFFF, width: 0, unsigned: false }))))
}

pub proof fn lemma_low_half(rs: nat)
    ensures
        low_half(rs).text() == text::fill("({} & 0xFFFF)"@, seq![text::fill("ctx->r[{}]"@, seq![text::dec(rs)])]),
        low_half(rs).grouped(),
{
    reveal_strlit("");
    reveal_strlit(" & ");
    reveal_strlit(" & 0xFFFF)");
    reveal_strlit("(");
    reveal_strlit(")");
    reveal_strlit("0x");
    reveal_strlit("FFFF");
    reveal_strlit("]");
    reveal_strlit("ctx->r[");
    small_c::lemma_numbers();
    lemma_text_38(text::dec(rs), " & 0xFFFF)"@ + (Seq::<char>::empty()));
    lemma_text_40(text::fill("ctx->r[{}]"@, seq![text::dec(rs)]), Seq::<char>::empty());
    reveal_with_fuel(Expression::text, 4);
    reveal_with_fuel(Expression::grouped, 4);
    let whole = text::fill("({} & 0xFFFF)"@, seq![text::fill("ctx->r[{}]"@, seq![text::dec(rs)])]) + Seq::<char>::empty();
    assert(whole =~= text::fill("({} & 0xFFFF)"@, seq![text::fill("ctx->r[{}]"@, seq![text::dec(rs)])]));
    assert(low_half(rs).text() =~= whole);
}

proof fn lemma_text_41(x0: Seq<char>, rest: Seq<char>)
    ensures
        text::fill("({} & 0xFF)"@, seq![x0]) + rest == "("@ + (x0 + (" & 0xFF)"@ + (rest))),
{
    reveal_strlit("({} & 0xFF)");
    reveal_strlit("{}");
    reveal_strlit("(");
    reveal_strlit(" & 0xFF)");
    assert("({} & 0xFF)"@ =~= "("@ + "{}"@ + (" & 0xFF)"@));
    let args_0 = seq![x0];
    let args_1 = Seq::<Seq<char>>::empty();
    assert(args_0.skip(1) =~= args_1);
    lemma_hole("("@, " & 0xFF)"@, args_0);
    lemma_plain(" & 0xFF)"@);
    assert(text::fill("({} & 0xFF)"@, seq![x0]) + rest =~= "("@ + (x0 + (" & 0xFF)"@ + (rest))));
}

pub open spec fn low_byte(rs: nat) -> Expression {
    Expression::Group(Box::new(Expression::Two(Operator::And, Box::new(Expression::Register(rs)), Box::new(Expression::Hex { number: 0xFF, width: 0, unsigned: false }))))
}

pub proof fn lemma_low_byte(rs: nat)
    ensures
        low_byte(rs).text() == text::fill("({} & 0xFF)"@, seq![text::fill("ctx->r[{}]"@, seq![text::dec(rs)])]),
        low_byte(rs).grouped(),
{
    reveal_strlit("");
    reveal_strlit(" & ");
    reveal_strlit(" & 0xFF)");
    reveal_strlit("(");
    reveal_strlit(")");
    reveal_strlit("0x");
    reveal_strlit("FF");
    reveal_strlit("]");
    reveal_strlit("ctx->r[");
    small_c::lemma_numbers();
    lemma_text_38(text::dec(rs), " & 0xFF)"@ + (Seq::<char>::empty()));
    lemma_text_41(text::fill("ctx->r[{}]"@, seq![text::dec(rs)]), Seq::<char>::empty());
    reveal_with_fuel(Expression::text, 4);
    reveal_with_fuel(Expression::grouped, 4);
    let whole = text::fill("({} & 0xFF)"@, seq![text::fill("ctx->r[{}]"@, seq![text::dec(rs)])]) + Seq::<char>::empty();
    assert(whole =~= text::fill("({} & 0xFF)"@, seq![text::fill("ctx->r[{}]"@, seq![text::dec(rs)])]));
    assert(low_byte(rs).text() =~= whole);
}

proof fn lemma_text_42(x0: Seq<char>, rest: Seq<char>)
    ensures
        text::fill("__builtin_bswap32({})"@, seq![x0]) + rest == "__builtin_bswap32("@ + (x0 + (")"@ + (rest))),
{
    reveal_strlit("__builtin_bswap32({})");
    reveal_strlit("{}");
    reveal_strlit("__builtin_bswap32(");
    reveal_strlit(")");
    assert("__builtin_bswap32({})"@ =~= "__builtin_bswap32("@ + "{}"@ + (")"@));
    let args_0 = seq![x0];
    let args_1 = Seq::<Seq<char>>::empty();
    assert(args_0.skip(1) =~= args_1);
    lemma_hole("__builtin_bswap32("@, ")"@, args_0);
    lemma_plain(")"@);
    assert(text::fill("__builtin_bswap32({})"@, seq![x0]) + rest =~= "__builtin_bswap32("@ + (x0 + (")"@ + (rest))));
}

pub open spec fn reverse_bytes(rs: nat) -> Expression {
    Expression::Call(Function::ReverseBytes, Box::new(Expression::Register(rs)))
}

pub proof fn lemma_reverse_bytes(rs: nat)
    ensures
        reverse_bytes(rs).text() == text::fill("__builtin_bswap32({})"@, seq![text::fill("ctx->r[{}]"@, seq![text::dec(rs)])]),
        reverse_bytes(rs).grouped(),
{
    reveal_strlit(")");
    reveal_strlit("]");
    reveal_strlit("__builtin_bswap32(");
    reveal_strlit("ctx->r[");
    small_c::lemma_numbers();
    lemma_text_38(text::dec(rs), ")"@ + (Seq::<char>::empty()));
    lemma_text_42(text::fill("ctx->r[{}]"@, seq![text::dec(rs)]), Seq::<char>::empty());
    reveal_with_fuel(Expression::text, 3);
    reveal_with_fuel(Expression::grouped, 3);
    let whole = text::fill("__builtin_bswap32({})"@, seq![text::fill("ctx->r[{}]"@, seq![text::dec(rs)])]) + Seq::<char>::empty();
    assert(whole =~= text::fill("__builtin_bswap32({})"@, seq![text::fill("ctx->r[{}]"@, seq![text::dec(rs)])]));
    assert(reverse_bytes(rs).text() =~= whole);
}

proof fn lemma_text_43(x0: Seq<char>, x1: Seq<char>, rest: Seq<char>)
    ensures
        text::fill("(({} & 0x00FF00FFu) << 8) | (({} & 0xFF00FF00u) >> 8)"@, seq![x0, x1]) + rest == "(("@ + (x0 + (" & 0x00FF00FFu) << 8) | (("@ + (x1 + (" & 0xFF00FF00u) >> 8)"@ + (rest))))),
{
    reveal_strlit("(({} & 0x00FF00FFu) << 8) | (({} & 0xFF00FF00u) >> 8)");
    reveal_strlit("{}");
    reveal_strlit("((");
    reveal_strlit(" & 0x00FF00FFu) << 8) | ((");
    reveal_strlit(" & 0xFF00FF00u) >> 8)");
    assert("(({} & 0x00FF00FFu) << 8) | (({} & 0xFF00FF00u) >> 8)"@ =~= "(("@ + "{}"@ + (" & 0x00FF00FFu) << 8) | (("@ + "{}"@ + (" & 0xFF00FF00u) >> 8)"@)));
    let args_0 = seq![x0, x1];
    let args_1 = seq![x1];
    let args_2 = Seq::<Seq<char>>::empty();
    assert(args_0.skip(1) =~= args_1);
    assert(args_1.skip(1) =~= args_2);
    lemma_hole("(("@, " & 0x00FF00FFu) << 8) | (("@ + "{}"@ + (" & 0xFF00FF00u) >> 8)"@), args_0);
    lemma_hole(" & 0x00FF00FFu) << 8) | (("@, " & 0xFF00FF00u) >> 8)"@, args_1);
    lemma_plain(" & 0xFF00FF00u) >> 8)"@);
    assert(text::fill("(({} & 0x00FF00FFu) << 8) | (({} & 0xFF00FF00u) >> 8)"@, seq![x0, x1]) + rest =~= "(("@ + (x0 + (" & 0x00FF00FFu) << 8) | (("@ + (x1 + (" & 0xFF00FF00u) >> 8)"@ + (rest))))));
}

pub open spec fn reverse_halves(rs: nat) -> Expression {
    Expression::Two(Operator::Or, Box::new(Expression::Group(Box::new(Expression::Two(Operator::Left, Box::new(Expression::Group(Box::new(Expression::Two(Operator::And, Box::new(Expression::Register(rs)), Box::new(Expression::Hex { number: 0x00FF00FF, width: 8, unsigned: true }))))), Box::new(Expression::Int(8)))))), Box::new(Expression::Group(Box::new(Expression::Two(Operator::Right, Box::new(Expression::Group(Box::new(Expression::Two(Operator::And, Box::new(Expression::Register(rs)), Box::new(Expression::Hex { number: 0xFF00FF00, width: 8, unsigned: true }))))), Box::new(Expression::Int(8)))))))
}

#[verifier::rlimit(60)]
#[verifier::rlimit(60)]
pub proof fn lemma_reverse_halves(rs: nat)
    ensures
        reverse_halves(rs).text() == text::fill("(({} & 0x00FF00FFu) << 8) | (({} & 0xFF00FF00u) >> 8)"@, seq![text::fill("ctx->r[{}]"@, seq![text::dec(rs)]), text::fill("ctx->r[{}]"@, seq![text::dec(rs)])]),
        reverse_halves(rs).grouped(),
{
    reveal_strlit(" & ");
    reveal_strlit(" & 0x00FF00FFu) << 8) | ((");
    reveal_strlit(" & 0xFF00FF00u) >> 8)");
    reveal_strlit(" << ");
    reveal_strlit(" >> ");
    reveal_strlit(" | ");
    reveal_strlit("(");
    reveal_strlit("((");
    reveal_strlit(")");
    reveal_strlit("00FF00FF");
    reveal_strlit("0x");
    reveal_strlit("8");
    reveal_strlit("FF00FF00");
    reveal_strlit("]");
    reveal_strlit("ctx->r[");
    reveal_strlit("u");
    small_c::lemma_numbers();
    lemma_text_38(text::dec(rs), " & 0xFF00FF00u) >> 8)"@ + (Seq::<char>::empty()));
    lemma_text_38(text::dec(rs), " & 0x00FF00FFu) << 8) | (("@ + ("ctx->r["@ + (text::dec(rs) + ("]"@ + (" & 0xFF00FF00u) >> 8)"@ + (Seq::<char>::empty()))))));
    lemma_text_43(text::fill("ctx->r[{}]"@, seq![text::dec(rs)]), text::fill("ctx->r[{}]"@, seq![text::dec(rs)]), Seq::<char>::empty());
    reveal_with_fuel(Expression::text, 7);
    reveal_with_fuel(Expression::grouped, 7);
    let whole = text::fill("(({} & 0x00FF00FFu) << 8) | (({} & 0xFF00FF00u) >> 8)"@, seq![text::fill("ctx->r[{}]"@, seq![text::dec(rs)]), text::fill("ctx->r[{}]"@, seq![text::dec(rs)])]) + Seq::<char>::empty();
    assert(whole =~= text::fill("(({} & 0x00FF00FFu) << 8) | (({} & 0xFF00FF00u) >> 8)"@, seq![text::fill("ctx->r[{}]"@, seq![text::dec(rs)]), text::fill("ctx->r[{}]"@, seq![text::dec(rs)])]));
    assert(reverse_halves(rs).text() =~= whole);
}

proof fn lemma_text_44(x0: Seq<char>, x1: Seq<char>, rest: Seq<char>)
    ensures
        text::fill("(uint32_t)(int32_t)(int16_t)((({} & 0xFF) << 8) | (({} >> 8) & 0xFF))"@, seq![x0, x1]) + rest == "(uint32_t)(int32_t)(int16_t)((("@ + (x0 + (" & 0xFF) << 8) | (("@ + (x1 + (" >> 8) & 0xFF))"@ + (rest))))),
{
    reveal_strlit("(uint32_t)(int32_t)(int16_t)((({} & 0xFF) << 8) | (({} >> 8) & 0xFF))");
    reveal_strlit("{}");
    reveal_strlit("(uint32_t)(int32_t)(int16_t)(((");
    reveal_strlit(" & 0xFF) << 8) | ((");
    reveal_strlit(" >> 8) & 0xFF))");
    assert("(uint32_t)(int32_t)(int16_t)((({} & 0xFF) << 8) | (({} >> 8) & 0xFF))"@ =~= "(uint32_t)(int32_t)(int16_t)((("@ + "{}"@ + (" & 0xFF) << 8) | (("@ + "{}"@ + (" >> 8) & 0xFF))"@)));
    let args_0 = seq![x0, x1];
    let args_1 = seq![x1];
    let args_2 = Seq::<Seq<char>>::empty();
    assert(args_0.skip(1) =~= args_1);
    assert(args_1.skip(1) =~= args_2);
    lemma_hole("(uint32_t)(int32_t)(int16_t)((("@, " & 0xFF) << 8) | (("@ + "{}"@ + (" >> 8) & 0xFF))"@), args_0);
    lemma_hole(" & 0xFF) << 8) | (("@, " >> 8) & 0xFF))"@, args_1);
    lemma_plain(" >> 8) & 0xFF))"@);
    assert(text::fill("(uint32_t)(int32_t)(int16_t)((({} & 0xFF) << 8) | (({} >> 8) & 0xFF))"@, seq![x0, x1]) + rest =~= "(uint32_t)(int32_t)(int16_t)((("@ + (x0 + (" & 0xFF) << 8) | (("@ + (x1 + (" >> 8) & 0xFF))"@ + (rest))))));
}

pub open spec fn reverse_signed(rs: nat) -> Expression {
    Expression::Cast(Type::U32, Box::new(Expression::Cast(Type::I32, Box::new(Expression::Cast(Type::I16, Box::new(Expression::Group(Box::new(Expression::Two(Operator::Or, Box::new(Expression::Group(Box::new(Expression::Two(Operator::Left, Box::new(Expression::Group(Box::new(Expression::Two(Operator::And, Box::new(Expression::Register(rs)), Box::new(Expression::Hex { number: 0xFF, width: 0, unsigned: false }))))), Box::new(Expression::Int(8)))))), Box::new(Expression::Group(Box::new(Expression::Two(Operator::And, Box::new(Expression::Group(Box::new(Expression::Two(Operator::Right, Box::new(Expression::Register(rs)), Box::new(Expression::Int(8)))))), Box::new(Expression::Hex { number: 0xFF, width: 0, unsigned: false }))))))))))))))
}

#[verifier::rlimit(60)]
#[verifier::rlimit(60)]
pub proof fn lemma_reverse_signed(rs: nat)
    ensures
        reverse_signed(rs).text() == text::fill("(uint32_t)(int32_t)(int16_t)((({} & 0xFF) << 8) | (({} >> 8) & 0xFF))"@, seq![text::fill("ctx->r[{}]"@, seq![text::dec(rs)]), text::fill("ctx->r[{}]"@, seq![text::dec(rs)])]),
        reverse_signed(rs).grouped(),
{
    reveal_strlit("");
    reveal_strlit(" & ");
    reveal_strlit(" & 0xFF) << 8) | ((");
    reveal_strlit(" << ");
    reveal_strlit(" >> ");
    reveal_strlit(" >> 8) & 0xFF))");
    reveal_strlit(" | ");
    reveal_strlit("(");
    reveal_strlit("(uint32_t)(int32_t)(int16_t)(((");
    reveal_strlit(")");
    reveal_strlit("0x");
    reveal_strlit("8");
    reveal_strlit("FF");
    reveal_strlit("]");
    reveal_strlit("ctx->r[");
    reveal_strlit("int16_t");
    reveal_strlit("int32_t");
    reveal_strlit("uint32_t");
    small_c::lemma_numbers();
    lemma_text_38(text::dec(rs), " >> 8) & 0xFF))"@ + (Seq::<char>::empty()));
    lemma_text_38(text::dec(rs), " & 0xFF) << 8) | (("@ + ("ctx->r["@ + (text::dec(rs) + ("]"@ + (" >> 8) & 0xFF))"@ + (Seq::<char>::empty()))))));
    lemma_text_44(text::fill("ctx->r[{}]"@, seq![text::dec(rs)]), text::fill("ctx->r[{}]"@, seq![text::dec(rs)]), Seq::<char>::empty());
    reveal_with_fuel(Expression::text, 11);
    reveal_with_fuel(Expression::grouped, 11);
    let whole = text::fill("(uint32_t)(int32_t)(int16_t)((({} & 0xFF) << 8) | (({} >> 8) & 0xFF))"@, seq![text::fill("ctx->r[{}]"@, seq![text::dec(rs)]), text::fill("ctx->r[{}]"@, seq![text::dec(rs)])]) + Seq::<char>::empty();
    assert(whole =~= text::fill("(uint32_t)(int32_t)(int16_t)((({} & 0xFF) << 8) | (({} >> 8) & 0xFF))"@, seq![text::fill("ctx->r[{}]"@, seq![text::dec(rs)]), text::fill("ctx->r[{}]"@, seq![text::dec(rs)])]));
    assert(reverse_signed(rs).text() =~= whole);
}

} // verus!
