//! the lines that the C for ARM multiplies is made of.

use crate::codegen::small_c;
use crate::codegen::small_c::{
    lemma_hole, lemma_plain, Declared, Expression, Field, Function, Layout, Name, Operator, Place,
    Program, Statement, Type,
};
use crate::text;
use vstd::prelude::*;

verus! {

proof fn lemma_statement_0(rest: Seq<char>)
    ensures
        Layout::Last.around(Statement::Close.text()) + rest == "}\n"@ + (rest),
        Statement::Close.grouped(),
{
    reveal_strlit("\n");
    reveal_strlit("}");
    reveal_strlit("}\n");
    small_c::lemma_numbers();
    reveal(Statement::text);
    reveal(Statement::grouped);
    reveal_with_fuel(Expression::text, 2);
    reveal_with_fuel(Expression::grouped, 2);
    assert(Layout::Last.around(Statement::Close.text()) + rest =~= "}\n"@ + (rest));
}

proof fn lemma_statement_1(rd: nat, rest: Seq<char>)
    ensures
        Layout::Middle.around(Statement::Assign(Place::Register(rd), Expression::Local(Name::R)).text()) + rest == "ctx->r["@ + (text::dec(rd) + ("] = r; "@ + (rest))),
        Statement::Assign(Place::Register(rd), Expression::Local(Name::R)).grouped(),
{
    reveal_strlit(" ");
    reveal_strlit(" = ");
    reveal_strlit(";");
    reveal_strlit("]");
    reveal_strlit("] = r; ");
    reveal_strlit("ctx->r[");
    reveal_strlit("r");
    small_c::lemma_numbers();
    reveal(Statement::text);
    reveal(Statement::grouped);
    reveal_with_fuel(Expression::text, 2);
    reveal_with_fuel(Expression::grouped, 2);
    assert(Layout::Middle.around(Statement::Assign(Place::Register(rd), Expression::Local(Name::R)).text()) + rest =~= "ctx->r["@ + (text::dec(rd) + ("] = r; "@ + (rest))));
}

proof fn lemma_statement_2(x: Expression, y: Expression, rest: Seq<char>)
    requires
        x.grouped(),
        y.grouped(),
        x.strength() == 16,
        y.strength() == 16,
    ensures
        Layout::Middle.around(Statement::Declare(Type::U32, Declared::One(Name::R, Expression::Two(Operator::Times, Box::new(x), Box::new(y)))).text()) + rest == "uint32_t r = "@ + (x.text() + (" * "@ + (y.text() + ("; "@ + (rest))))),
        Statement::Declare(Type::U32, Declared::One(Name::R, Expression::Two(Operator::Times, Box::new(x), Box::new(y)))).grouped(),
{
    reveal_strlit(" ");
    reveal_strlit(" * ");
    reveal_strlit(" = ");
    reveal_strlit(";");
    reveal_strlit("; ");
    reveal_strlit("r");
    reveal_strlit("uint32_t");
    reveal_strlit("uint32_t r = ");
    small_c::lemma_numbers();
    reveal(Statement::text);
    reveal(Statement::grouped);
    reveal_with_fuel(Declared::text, 2);
    reveal_with_fuel(Declared::grouped, 2);
    reveal_with_fuel(Expression::text, 2);
    reveal_with_fuel(Expression::grouped, 2);
    assert(Layout::Middle.around(Statement::Declare(Type::U32, Declared::One(Name::R, Expression::Two(Operator::Times, Box::new(x), Box::new(y)))).text()) + rest =~= "uint32_t r = "@ + (x.text() + (" * "@ + (y.text() + ("; "@ + (rest))))));
}

proof fn lemma_statement_3(rest: Seq<char>)
    ensures
        Layout::First.around(Statement::Open.text()) + rest == "    { "@ + (rest),
        Statement::Open.grouped(),
{
    reveal_strlit(" ");
    reveal_strlit("    ");
    reveal_strlit("    { ");
    reveal_strlit("{");
    small_c::lemma_numbers();
    reveal(Statement::text);
    reveal(Statement::grouped);
    reveal_with_fuel(Expression::text, 2);
    reveal_with_fuel(Expression::grouped, 2);
    assert(Layout::First.around(Statement::Open.text()) + rest =~= "    { "@ + (rest));
}

proof fn lemma_text_0(x0: Seq<char>, x1: Seq<char>, x2: Seq<char>, x3: Seq<char>, rest: Seq<char>)
    ensures
        text::fill("    { uint32_t r = {}{}; ctx->r[{}] = r;{} }"@, seq![x0, x1, x2, x3]) + rest == "    { uint32_t r = "@ + (x0 + (x1 + ("; ctx->r["@ + (x2 + ("] = r;"@ + (x3 + (" }"@ + (rest)))))))),
{
    reveal_strlit("    { uint32_t r = {}{}; ctx->r[{}] = r;{} }");
    reveal_strlit("{}");
    reveal_strlit("    { uint32_t r = ");
    reveal_strlit("");
    reveal_strlit("; ctx->r[");
    reveal_strlit("] = r;");
    reveal_strlit(" }");
    assert("    { uint32_t r = {}{}; ctx->r[{}] = r;{} }"@ =~= "    { uint32_t r = "@ + "{}"@ + (""@ + "{}"@ + ("; ctx->r["@ + "{}"@ + ("] = r;"@ + "{}"@ + (" }"@)))));
    let args_0 = seq![x0, x1, x2, x3];
    let args_1 = seq![x1, x2, x3];
    let args_2 = seq![x2, x3];
    let args_3 = seq![x3];
    let args_4 = Seq::<Seq<char>>::empty();
    assert(args_0.skip(1) =~= args_1);
    assert(args_1.skip(1) =~= args_2);
    assert(args_2.skip(1) =~= args_3);
    assert(args_3.skip(1) =~= args_4);
    lemma_hole("    { uint32_t r = "@, ""@ + "{}"@ + ("; ctx->r["@ + "{}"@ + ("] = r;"@ + "{}"@ + (" }"@))), args_0);
    lemma_hole(""@, "; ctx->r["@ + "{}"@ + ("] = r;"@ + "{}"@ + (" }"@)), args_1);
    lemma_hole("; ctx->r["@, "] = r;"@ + "{}"@ + (" }"@), args_2);
    lemma_hole("] = r;"@, " }"@, args_3);
    lemma_plain(" }"@);
    assert(text::fill("    { uint32_t r = {}{}; ctx->r[{}] = r;{} }"@, seq![x0, x1, x2, x3]) + rest =~= "    { uint32_t r = "@ + (x0 + (x1 + ("; ctx->r["@ + (x2 + ("] = r;"@ + (x3 + (" }"@ + (rest)))))))));
}

proof fn lemma_text_1(x0: Seq<char>, x1: Seq<char>, rest: Seq<char>)
    ensures
        text::fill("{} * {}"@, seq![x0, x1]) + rest == x0 + (" * "@ + (x1 + (rest))),
{
    reveal_strlit("{} * {}");
    reveal_strlit("{}");
    reveal_strlit("");
    reveal_strlit(" * ");
    assert("{} * {}"@ =~= ""@ + "{}"@ + (" * "@ + "{}"@ + (""@)));
    let args_0 = seq![x0, x1];
    let args_1 = seq![x1];
    let args_2 = Seq::<Seq<char>>::empty();
    assert(args_0.skip(1) =~= args_1);
    assert(args_1.skip(1) =~= args_2);
    lemma_hole(""@, " * "@ + "{}"@ + (""@), args_0);
    lemma_hole(" * "@, ""@, args_1);
    lemma_plain(""@);
    assert(text::fill("{} * {}"@, seq![x0, x1]) + rest =~= x0 + (" * "@ + (x1 + (rest))));
}

proof fn lemma_letters_0(rest: Seq<char>)
    ensures
        "] = r; "@ + ("}\n"@ + (rest)) == "] = r;"@ + (""@ + (" }"@ + ("\n"@ + (rest)))),
{
    reveal_strlit("] = r; ");
    reveal_strlit("}\n");
    reveal_strlit("] = r;");
    reveal_strlit("");
    reveal_strlit(" }");
    reveal_strlit("\n");
    assert("] = r; "@ + ("}\n"@ + (rest)) =~= "] = r;"@ + (""@ + (" }"@ + ("\n"@ + (rest)))));
}

proof fn lemma_letters_1(rest: Seq<char>)
    ensures
        "; "@ + ("ctx->r["@ + (rest)) == ""@ + ("; ctx->r["@ + (rest)),
{
    reveal_strlit("; ");
    reveal_strlit("ctx->r[");
    reveal_strlit("");
    reveal_strlit("; ctx->r[");
    assert("; "@ + ("ctx->r["@ + (rest)) =~= ""@ + ("; ctx->r["@ + (rest)));
}

proof fn lemma_letters_2(rest: Seq<char>)
    ensures
        "    { "@ + ("uint32_t r = "@ + (rest)) == "    { uint32_t r = "@ + (rest),
{
    reveal_strlit("    { ");
    reveal_strlit("uint32_t r = ");
    reveal_strlit("    { uint32_t r = ");
    assert("    { "@ + ("uint32_t r = "@ + (rest)) =~= "    { uint32_t r = "@ + (rest));
}

pub open spec fn multiply_line(x: Expression, y: Expression, rd: nat) -> Program {
    Program::Then(
        Layout::First,
        Statement::Open,
        Box::new(Program::Then(
        Layout::Middle,
        Statement::Declare(Type::U32, Declared::One(Name::R, Expression::Two(Operator::Times, Box::new(x), Box::new(y)))),
        Box::new(Program::Then(
        Layout::Middle,
        Statement::Assign(Place::Register(rd), Expression::Local(Name::R)),
        Box::new(Program::Then(
        Layout::Last,
        Statement::Close,
        Box::new(Program::End),
    )),
    )),
    )),
    )
}

pub proof fn lemma_multiply_line(x: Expression, y: Expression, rd: nat)
    requires
        x.grouped(),
        y.grouped(),
        x.strength() == 16,
        y.strength() == 16,
    ensures
        multiply_line(x, y, rd).text() == text::fill("    { uint32_t r = {}{}; ctx->r[{}] = r;{} }"@, seq![text::fill("{} * {}"@, seq![x.text(), y.text()]), ""@, text::dec(rd), ""@]).push('\n'),
        multiply_line(x, y, rd).grouped(),
{
    reveal_with_fuel(Program::text, 5);
    reveal_with_fuel(Program::grouped, 5);
    lemma_statement_0(Seq::<char>::empty());
    lemma_statement_1(rd, "}\n"@ + (Seq::<char>::empty()));
    lemma_statement_2(x, y, "ctx->r["@ + (text::dec(rd) + ("] = r; "@ + ("}\n"@ + (Seq::<char>::empty())))));
    lemma_statement_3("uint32_t r = "@ + (x.text() + (" * "@ + (y.text() + ("; "@ + ("ctx->r["@ + (text::dec(rd) + ("] = r; "@ + ("}\n"@ + (Seq::<char>::empty()))))))))));
    assert(""@ == ""@);
    assert(""@ == ""@);
    lemma_text_1(x.text(), y.text(), ""@ + ("; ctx->r["@ + (text::dec(rd) + ("] = r;"@ + (""@ + (" }"@ + ("\n"@ + Seq::<char>::empty())))))));
    lemma_text_0(text::fill("{} * {}"@, seq![x.text(), y.text()]), ""@, text::dec(rd), ""@, "\n"@ + Seq::<char>::empty());
    lemma_letters_0(Seq::<char>::empty());
    lemma_letters_1(text::dec(rd) + ("] = r;"@ + (""@ + (" }"@ + ("\n"@ + (Seq::<char>::empty()))))));
    lemma_letters_2(x.text() + (" * "@ + (y.text() + (""@ + ("; ctx->r["@ + (text::dec(rd) + ("] = r;"@ + (""@ + (" }"@ + ("\n"@ + (Seq::<char>::empty())))))))))));
    reveal_strlit("\n");
    assert(text::fill("    { uint32_t r = {}{}; ctx->r[{}] = r;{} }"@, seq![text::fill("{} * {}"@, seq![x.text(), y.text()]), ""@, text::dec(rd), ""@]).push('\n') =~= text::fill("    { uint32_t r = {}{}; ctx->r[{}] = r;{} }"@, seq![text::fill("{} * {}"@, seq![x.text(), y.text()]), ""@, text::dec(rd), ""@]) + ("\n"@ + Seq::<char>::empty()));
    assert(multiply_line(x, y, rd).text() == text::fill("    { uint32_t r = {}{}; ctx->r[{}] = r;{} }"@, seq![text::fill("{} * {}"@, seq![x.text(), y.text()]), ""@, text::dec(rd), ""@]).push('\n'));
}

proof fn lemma_statement_4(rest: Seq<char>)
    ensures
        Layout::Middle.around(Statement::Assign(Place::Field(Field::Z), Expression::Two(Operator::Equal, Box::new(Expression::Local(Name::R)), Box::new(Expression::Int(0)))).text()) + rest == "ctx->z = r == 0; "@ + (rest),
        Statement::Assign(Place::Field(Field::Z), Expression::Two(Operator::Equal, Box::new(Expression::Local(Name::R)), Box::new(Expression::Int(0)))).grouped(),
{
    reveal_strlit(" ");
    reveal_strlit(" = ");
    reveal_strlit(" == ");
    reveal_strlit("0");
    reveal_strlit(";");
    reveal_strlit("ctx->z");
    reveal_strlit("ctx->z = r == 0; ");
    reveal_strlit("r");
    small_c::lemma_numbers();
    reveal(Statement::text);
    reveal(Statement::grouped);
    reveal_with_fuel(Expression::text, 3);
    reveal_with_fuel(Expression::grouped, 3);
    assert(Layout::Middle.around(Statement::Assign(Place::Field(Field::Z), Expression::Two(Operator::Equal, Box::new(Expression::Local(Name::R)), Box::new(Expression::Int(0)))).text()) + rest =~= "ctx->z = r == 0; "@ + (rest));
}

proof fn lemma_statement_5(rest: Seq<char>)
    ensures
        Layout::Middle.around(Statement::Assign(Place::Field(Field::N), Expression::Two(Operator::Right, Box::new(Expression::Local(Name::R)), Box::new(Expression::Int(31)))).text()) + rest == "ctx->n = r >> 31; "@ + (rest),
        Statement::Assign(Place::Field(Field::N), Expression::Two(Operator::Right, Box::new(Expression::Local(Name::R)), Box::new(Expression::Int(31)))).grouped(),
{
    reveal_strlit(" ");
    reveal_strlit(" = ");
    reveal_strlit(" >> ");
    reveal_strlit("31");
    reveal_strlit(";");
    reveal_strlit("ctx->n");
    reveal_strlit("ctx->n = r >> 31; ");
    reveal_strlit("r");
    small_c::lemma_numbers();
    reveal(Statement::text);
    reveal(Statement::grouped);
    reveal_with_fuel(Expression::text, 3);
    reveal_with_fuel(Expression::grouped, 3);
    assert(Layout::Middle.around(Statement::Assign(Place::Field(Field::N), Expression::Two(Operator::Right, Box::new(Expression::Local(Name::R)), Box::new(Expression::Int(31)))).text()) + rest =~= "ctx->n = r >> 31; "@ + (rest));
}

proof fn lemma_letters_3(rest: Seq<char>)
    ensures
        "] = r; "@ + ("ctx->n = r >> 31; "@ + ("ctx->z = r == 0; "@ + ("}\n"@ + (rest)))) == "] = r;"@ + (" ctx->n = r >> 31; ctx->z = r == 0;"@ + (" }"@ + ("\n"@ + (rest)))),
{
    reveal_strlit("] = r; ");
    reveal_strlit("ctx->n = r >> 31; ");
    reveal_strlit("ctx->z = r == 0; ");
    reveal_strlit("}\n");
    reveal_strlit("] = r;");
    reveal_strlit(" ctx->n = r >> 31; ctx->z = r == 0;");
    reveal_strlit(" }");
    reveal_strlit("\n");
    assert("] = r; "@ + ("ctx->n = r >> 31; "@ + ("ctx->z = r == 0; "@ + ("}\n"@ + (rest)))) =~= "] = r;"@ + (" ctx->n = r >> 31; ctx->z = r == 0;"@ + (" }"@ + ("\n"@ + (rest)))));
}

pub open spec fn multiply_signs_line(x: Expression, y: Expression, rd: nat) -> Program {
    Program::Then(
        Layout::First,
        Statement::Open,
        Box::new(Program::Then(
        Layout::Middle,
        Statement::Declare(Type::U32, Declared::One(Name::R, Expression::Two(Operator::Times, Box::new(x), Box::new(y)))),
        Box::new(Program::Then(
        Layout::Middle,
        Statement::Assign(Place::Register(rd), Expression::Local(Name::R)),
        Box::new(Program::Then(
        Layout::Middle,
        Statement::Assign(Place::Field(Field::N), Expression::Two(Operator::Right, Box::new(Expression::Local(Name::R)), Box::new(Expression::Int(31)))),
        Box::new(Program::Then(
        Layout::Middle,
        Statement::Assign(Place::Field(Field::Z), Expression::Two(Operator::Equal, Box::new(Expression::Local(Name::R)), Box::new(Expression::Int(0)))),
        Box::new(Program::Then(
        Layout::Last,
        Statement::Close,
        Box::new(Program::End),
    )),
    )),
    )),
    )),
    )),
    )
}

pub proof fn lemma_multiply_signs_line(x: Expression, y: Expression, rd: nat)
    requires
        x.grouped(),
        y.grouped(),
        x.strength() == 16,
        y.strength() == 16,
    ensures
        multiply_signs_line(x, y, rd).text() == text::fill("    { uint32_t r = {}{}; ctx->r[{}] = r;{} }"@, seq![text::fill("{} * {}"@, seq![x.text(), y.text()]), ""@, text::dec(rd), " ctx->n = r >> 31; ctx->z = r == 0;"@]).push('\n'),
        multiply_signs_line(x, y, rd).grouped(),
{
    reveal_with_fuel(Program::text, 7);
    reveal_with_fuel(Program::grouped, 7);
    lemma_statement_0(Seq::<char>::empty());
    lemma_statement_4("}\n"@ + (Seq::<char>::empty()));
    lemma_statement_5("ctx->z = r == 0; "@ + ("}\n"@ + (Seq::<char>::empty())));
    lemma_statement_1(rd, "ctx->n = r >> 31; "@ + ("ctx->z = r == 0; "@ + ("}\n"@ + (Seq::<char>::empty()))));
    lemma_statement_2(x, y, "ctx->r["@ + (text::dec(rd) + ("] = r; "@ + ("ctx->n = r >> 31; "@ + ("ctx->z = r == 0; "@ + ("}\n"@ + (Seq::<char>::empty())))))));
    lemma_statement_3("uint32_t r = "@ + (x.text() + (" * "@ + (y.text() + ("; "@ + ("ctx->r["@ + (text::dec(rd) + ("] = r; "@ + ("ctx->n = r >> 31; "@ + ("ctx->z = r == 0; "@ + ("}\n"@ + (Seq::<char>::empty()))))))))))));
    assert(" ctx->n = r >> 31; ctx->z = r == 0;"@ == " ctx->n = r >> 31; ctx->z = r == 0;"@);
    assert(""@ == ""@);
    lemma_text_1(x.text(), y.text(), ""@ + ("; ctx->r["@ + (text::dec(rd) + ("] = r;"@ + (" ctx->n = r >> 31; ctx->z = r == 0;"@ + (" }"@ + ("\n"@ + Seq::<char>::empty())))))));
    lemma_text_0(text::fill("{} * {}"@, seq![x.text(), y.text()]), ""@, text::dec(rd), " ctx->n = r >> 31; ctx->z = r == 0;"@, "\n"@ + Seq::<char>::empty());
    lemma_letters_3(Seq::<char>::empty());
    lemma_letters_1(text::dec(rd) + ("] = r;"@ + (" ctx->n = r >> 31; ctx->z = r == 0;"@ + (" }"@ + ("\n"@ + (Seq::<char>::empty()))))));
    lemma_letters_2(x.text() + (" * "@ + (y.text() + (""@ + ("; ctx->r["@ + (text::dec(rd) + ("] = r;"@ + (" ctx->n = r >> 31; ctx->z = r == 0;"@ + (" }"@ + ("\n"@ + (Seq::<char>::empty())))))))))));
    reveal_strlit("\n");
    assert(text::fill("    { uint32_t r = {}{}; ctx->r[{}] = r;{} }"@, seq![text::fill("{} * {}"@, seq![x.text(), y.text()]), ""@, text::dec(rd), " ctx->n = r >> 31; ctx->z = r == 0;"@]).push('\n') =~= text::fill("    { uint32_t r = {}{}; ctx->r[{}] = r;{} }"@, seq![text::fill("{} * {}"@, seq![x.text(), y.text()]), ""@, text::dec(rd), " ctx->n = r >> 31; ctx->z = r == 0;"@]) + ("\n"@ + Seq::<char>::empty()));
    assert(multiply_signs_line(x, y, rd).text() == text::fill("    { uint32_t r = {}{}; ctx->r[{}] = r;{} }"@, seq![text::fill("{} * {}"@, seq![x.text(), y.text()]), ""@, text::dec(rd), " ctx->n = r >> 31; ctx->z = r == 0;"@]).push('\n'));
}

proof fn lemma_statement_6(x: Expression, y: Expression, z: Expression, rest: Seq<char>)
    requires
        x.grouped(),
        y.grouped(),
        x.strength() == 16,
        y.strength() == 16,
        z.grouped(),
        z.strength() == 16,
    ensures
        Layout::Middle.around(Statement::Declare(Type::U32, Declared::One(Name::R, Expression::Two(Operator::Plus, Box::new(Expression::Two(Operator::Times, Box::new(x), Box::new(y))), Box::new(z)))).text()) + rest == "uint32_t r = "@ + (x.text() + (" * "@ + (y.text() + (" + "@ + (z.text() + ("; "@ + (rest))))))),
        Statement::Declare(Type::U32, Declared::One(Name::R, Expression::Two(Operator::Plus, Box::new(Expression::Two(Operator::Times, Box::new(x), Box::new(y))), Box::new(z)))).grouped(),
{
    reveal_strlit(" ");
    reveal_strlit(" * ");
    reveal_strlit(" + ");
    reveal_strlit(" = ");
    reveal_strlit(";");
    reveal_strlit("; ");
    reveal_strlit("r");
    reveal_strlit("uint32_t");
    reveal_strlit("uint32_t r = ");
    small_c::lemma_numbers();
    reveal(Statement::text);
    reveal(Statement::grouped);
    reveal_with_fuel(Declared::text, 2);
    reveal_with_fuel(Declared::grouped, 2);
    reveal_with_fuel(Expression::text, 3);
    reveal_with_fuel(Expression::grouped, 3);
    assert(Layout::Middle.around(Statement::Declare(Type::U32, Declared::One(Name::R, Expression::Two(Operator::Plus, Box::new(Expression::Two(Operator::Times, Box::new(x), Box::new(y))), Box::new(z)))).text()) + rest =~= "uint32_t r = "@ + (x.text() + (" * "@ + (y.text() + (" + "@ + (z.text() + ("; "@ + (rest))))))));
}

proof fn lemma_text_2(x0: Seq<char>, rest: Seq<char>)
    ensures
        text::fill(" + {}"@, seq![x0]) + rest == " + "@ + (x0 + (rest)),
{
    reveal_strlit(" + {}");
    reveal_strlit("{}");
    reveal_strlit(" + ");
    reveal_strlit("");
    assert(" + {}"@ =~= " + "@ + "{}"@ + (""@));
    let args_0 = seq![x0];
    let args_1 = Seq::<Seq<char>>::empty();
    assert(args_0.skip(1) =~= args_1);
    lemma_hole(" + "@, ""@, args_0);
    lemma_plain(""@);
    assert(text::fill(" + {}"@, seq![x0]) + rest =~= " + "@ + (x0 + (rest)));
}

proof fn lemma_letters_4(rest: Seq<char>)
    ensures
        "; "@ + ("ctx->r["@ + (rest)) == "; ctx->r["@ + (rest),
{
    reveal_strlit("; ");
    reveal_strlit("ctx->r[");
    reveal_strlit("; ctx->r[");
    assert("; "@ + ("ctx->r["@ + (rest)) =~= "; ctx->r["@ + (rest));
}

pub open spec fn multiply_add_line(x: Expression, y: Expression, z: Expression, rd: nat) -> Program {
    Program::Then(
        Layout::First,
        Statement::Open,
        Box::new(Program::Then(
        Layout::Middle,
        Statement::Declare(Type::U32, Declared::One(Name::R, Expression::Two(Operator::Plus, Box::new(Expression::Two(Operator::Times, Box::new(x), Box::new(y))), Box::new(z)))),
        Box::new(Program::Then(
        Layout::Middle,
        Statement::Assign(Place::Register(rd), Expression::Local(Name::R)),
        Box::new(Program::Then(
        Layout::Last,
        Statement::Close,
        Box::new(Program::End),
    )),
    )),
    )),
    )
}

pub proof fn lemma_multiply_add_line(x: Expression, y: Expression, z: Expression, rd: nat)
    requires
        x.grouped(),
        y.grouped(),
        x.strength() == 16,
        y.strength() == 16,
        z.grouped(),
        z.strength() == 16,
    ensures
        multiply_add_line(x, y, z, rd).text() == text::fill("    { uint32_t r = {}{}; ctx->r[{}] = r;{} }"@, seq![text::fill("{} * {}"@, seq![x.text(), y.text()]), text::fill(" + {}"@, seq![z.text()]), text::dec(rd), ""@]).push('\n'),
        multiply_add_line(x, y, z, rd).grouped(),
{
    reveal_with_fuel(Program::text, 5);
    reveal_with_fuel(Program::grouped, 5);
    lemma_statement_0(Seq::<char>::empty());
    lemma_statement_1(rd, "}\n"@ + (Seq::<char>::empty()));
    lemma_statement_6(x, y, z, "ctx->r["@ + (text::dec(rd) + ("] = r; "@ + ("}\n"@ + (Seq::<char>::empty())))));
    lemma_statement_3("uint32_t r = "@ + (x.text() + (" * "@ + (y.text() + (" + "@ + (z.text() + ("; "@ + ("ctx->r["@ + (text::dec(rd) + ("] = r; "@ + ("}\n"@ + (Seq::<char>::empty()))))))))))));
    assert(""@ == ""@);
    lemma_text_2(z.text(), "; ctx->r["@ + (text::dec(rd) + ("] = r;"@ + (""@ + (" }"@ + ("\n"@ + Seq::<char>::empty()))))));
    lemma_text_1(x.text(), y.text(), " + "@ + (z.text() + ("; ctx->r["@ + (text::dec(rd) + ("] = r;"@ + (""@ + (" }"@ + ("\n"@ + Seq::<char>::empty()))))))));
    lemma_text_0(text::fill("{} * {}"@, seq![x.text(), y.text()]), text::fill(" + {}"@, seq![z.text()]), text::dec(rd), ""@, "\n"@ + Seq::<char>::empty());
    lemma_letters_0(Seq::<char>::empty());
    lemma_letters_4(text::dec(rd) + ("] = r;"@ + (""@ + (" }"@ + ("\n"@ + (Seq::<char>::empty()))))));
    lemma_letters_2(x.text() + (" * "@ + (y.text() + (" + "@ + (z.text() + ("; ctx->r["@ + (text::dec(rd) + ("] = r;"@ + (""@ + (" }"@ + ("\n"@ + (Seq::<char>::empty()))))))))))));
    reveal_strlit("\n");
    assert(text::fill("    { uint32_t r = {}{}; ctx->r[{}] = r;{} }"@, seq![text::fill("{} * {}"@, seq![x.text(), y.text()]), text::fill(" + {}"@, seq![z.text()]), text::dec(rd), ""@]).push('\n') =~= text::fill("    { uint32_t r = {}{}; ctx->r[{}] = r;{} }"@, seq![text::fill("{} * {}"@, seq![x.text(), y.text()]), text::fill(" + {}"@, seq![z.text()]), text::dec(rd), ""@]) + ("\n"@ + Seq::<char>::empty()));
    assert(multiply_add_line(x, y, z, rd).text() == text::fill("    { uint32_t r = {}{}; ctx->r[{}] = r;{} }"@, seq![text::fill("{} * {}"@, seq![x.text(), y.text()]), text::fill(" + {}"@, seq![z.text()]), text::dec(rd), ""@]).push('\n'));
}

pub open spec fn multiply_add_signs_line(x: Expression, y: Expression, z: Expression, rd: nat) -> Program {
    Program::Then(
        Layout::First,
        Statement::Open,
        Box::new(Program::Then(
        Layout::Middle,
        Statement::Declare(Type::U32, Declared::One(Name::R, Expression::Two(Operator::Plus, Box::new(Expression::Two(Operator::Times, Box::new(x), Box::new(y))), Box::new(z)))),
        Box::new(Program::Then(
        Layout::Middle,
        Statement::Assign(Place::Register(rd), Expression::Local(Name::R)),
        Box::new(Program::Then(
        Layout::Middle,
        Statement::Assign(Place::Field(Field::N), Expression::Two(Operator::Right, Box::new(Expression::Local(Name::R)), Box::new(Expression::Int(31)))),
        Box::new(Program::Then(
        Layout::Middle,
        Statement::Assign(Place::Field(Field::Z), Expression::Two(Operator::Equal, Box::new(Expression::Local(Name::R)), Box::new(Expression::Int(0)))),
        Box::new(Program::Then(
        Layout::Last,
        Statement::Close,
        Box::new(Program::End),
    )),
    )),
    )),
    )),
    )),
    )
}

pub proof fn lemma_multiply_add_signs_line(x: Expression, y: Expression, z: Expression, rd: nat)
    requires
        x.grouped(),
        y.grouped(),
        x.strength() == 16,
        y.strength() == 16,
        z.grouped(),
        z.strength() == 16,
    ensures
        multiply_add_signs_line(x, y, z, rd).text() == text::fill("    { uint32_t r = {}{}; ctx->r[{}] = r;{} }"@, seq![text::fill("{} * {}"@, seq![x.text(), y.text()]), text::fill(" + {}"@, seq![z.text()]), text::dec(rd), " ctx->n = r >> 31; ctx->z = r == 0;"@]).push('\n'),
        multiply_add_signs_line(x, y, z, rd).grouped(),
{
    reveal_with_fuel(Program::text, 7);
    reveal_with_fuel(Program::grouped, 7);
    lemma_statement_0(Seq::<char>::empty());
    lemma_statement_4("}\n"@ + (Seq::<char>::empty()));
    lemma_statement_5("ctx->z = r == 0; "@ + ("}\n"@ + (Seq::<char>::empty())));
    lemma_statement_1(rd, "ctx->n = r >> 31; "@ + ("ctx->z = r == 0; "@ + ("}\n"@ + (Seq::<char>::empty()))));
    lemma_statement_6(x, y, z, "ctx->r["@ + (text::dec(rd) + ("] = r; "@ + ("ctx->n = r >> 31; "@ + ("ctx->z = r == 0; "@ + ("}\n"@ + (Seq::<char>::empty())))))));
    lemma_statement_3("uint32_t r = "@ + (x.text() + (" * "@ + (y.text() + (" + "@ + (z.text() + ("; "@ + ("ctx->r["@ + (text::dec(rd) + ("] = r; "@ + ("ctx->n = r >> 31; "@ + ("ctx->z = r == 0; "@ + ("}\n"@ + (Seq::<char>::empty()))))))))))))));
    assert(" ctx->n = r >> 31; ctx->z = r == 0;"@ == " ctx->n = r >> 31; ctx->z = r == 0;"@);
    lemma_text_2(z.text(), "; ctx->r["@ + (text::dec(rd) + ("] = r;"@ + (" ctx->n = r >> 31; ctx->z = r == 0;"@ + (" }"@ + ("\n"@ + Seq::<char>::empty()))))));
    lemma_text_1(x.text(), y.text(), " + "@ + (z.text() + ("; ctx->r["@ + (text::dec(rd) + ("] = r;"@ + (" ctx->n = r >> 31; ctx->z = r == 0;"@ + (" }"@ + ("\n"@ + Seq::<char>::empty()))))))));
    lemma_text_0(text::fill("{} * {}"@, seq![x.text(), y.text()]), text::fill(" + {}"@, seq![z.text()]), text::dec(rd), " ctx->n = r >> 31; ctx->z = r == 0;"@, "\n"@ + Seq::<char>::empty());
    lemma_letters_3(Seq::<char>::empty());
    lemma_letters_4(text::dec(rd) + ("] = r;"@ + (" ctx->n = r >> 31; ctx->z = r == 0;"@ + (" }"@ + ("\n"@ + (Seq::<char>::empty()))))));
    lemma_letters_2(x.text() + (" * "@ + (y.text() + (" + "@ + (z.text() + ("; ctx->r["@ + (text::dec(rd) + ("] = r;"@ + (" ctx->n = r >> 31; ctx->z = r == 0;"@ + (" }"@ + ("\n"@ + (Seq::<char>::empty()))))))))))));
    reveal_strlit("\n");
    assert(text::fill("    { uint32_t r = {}{}; ctx->r[{}] = r;{} }"@, seq![text::fill("{} * {}"@, seq![x.text(), y.text()]), text::fill(" + {}"@, seq![z.text()]), text::dec(rd), " ctx->n = r >> 31; ctx->z = r == 0;"@]).push('\n') =~= text::fill("    { uint32_t r = {}{}; ctx->r[{}] = r;{} }"@, seq![text::fill("{} * {}"@, seq![x.text(), y.text()]), text::fill(" + {}"@, seq![z.text()]), text::dec(rd), " ctx->n = r >> 31; ctx->z = r == 0;"@]) + ("\n"@ + Seq::<char>::empty()));
    assert(multiply_add_signs_line(x, y, z, rd).text() == text::fill("    { uint32_t r = {}{}; ctx->r[{}] = r;{} }"@, seq![text::fill("{} * {}"@, seq![x.text(), y.text()]), text::fill(" + {}"@, seq![z.text()]), text::dec(rd), " ctx->n = r >> 31; ctx->z = r == 0;"@]).push('\n'));
}

#[verifier::rlimit(60)]
proof fn lemma_statement_7(hi: nat, rest: Seq<char>)
    ensures
        Layout::Middle.around(Statement::Assign(Place::Register(hi), Expression::Cast(Type::U32, Box::new(Expression::Group(Box::new(Expression::Two(Operator::Right, Box::new(Expression::Local(Name::R)), Box::new(Expression::Int(32)))))))).text()) + rest == "ctx->r["@ + (text::dec(hi) + ("] = (uint32_t)(r >> 32); "@ + (rest))),
        Statement::Assign(Place::Register(hi), Expression::Cast(Type::U32, Box::new(Expression::Group(Box::new(Expression::Two(Operator::Right, Box::new(Expression::Local(Name::R)), Box::new(Expression::Int(32)))))))).grouped(),
{
    reveal_strlit(" ");
    reveal_strlit(" = ");
    reveal_strlit(" >> ");
    reveal_strlit("(");
    reveal_strlit(")");
    reveal_strlit("32");
    reveal_strlit(";");
    reveal_strlit("]");
    reveal_strlit("] = (uint32_t)(r >> 32); ");
    reveal_strlit("ctx->r[");
    reveal_strlit("r");
    reveal_strlit("uint32_t");
    small_c::lemma_numbers();
    reveal(Statement::text);
    reveal(Statement::grouped);
    reveal_with_fuel(Expression::text, 5);
    reveal_with_fuel(Expression::grouped, 5);
    assert(Layout::Middle.around(Statement::Assign(Place::Register(hi), Expression::Cast(Type::U32, Box::new(Expression::Group(Box::new(Expression::Two(Operator::Right, Box::new(Expression::Local(Name::R)), Box::new(Expression::Int(32)))))))).text()) + rest =~= "ctx->r["@ + (text::dec(hi) + ("] = (uint32_t)(r >> 32); "@ + (rest))));
}

proof fn lemma_statement_8(lo: nat, rest: Seq<char>)
    ensures
        Layout::Middle.around(Statement::Assign(Place::Register(lo), Expression::Cast(Type::U32, Box::new(Expression::Local(Name::R)))).text()) + rest == "ctx->r["@ + (text::dec(lo) + ("] = (uint32_t)r; "@ + (rest))),
        Statement::Assign(Place::Register(lo), Expression::Cast(Type::U32, Box::new(Expression::Local(Name::R)))).grouped(),
{
    reveal_strlit(" ");
    reveal_strlit(" = ");
    reveal_strlit("(");
    reveal_strlit(")");
    reveal_strlit(";");
    reveal_strlit("]");
    reveal_strlit("] = (uint32_t)r; ");
    reveal_strlit("ctx->r[");
    reveal_strlit("r");
    reveal_strlit("uint32_t");
    small_c::lemma_numbers();
    reveal(Statement::text);
    reveal(Statement::grouped);
    reveal_with_fuel(Expression::text, 3);
    reveal_with_fuel(Expression::grouped, 3);
    assert(Layout::Middle.around(Statement::Assign(Place::Register(lo), Expression::Cast(Type::U32, Box::new(Expression::Local(Name::R)))).text()) + rest =~= "ctx->r["@ + (text::dec(lo) + ("] = (uint32_t)r; "@ + (rest))));
}

proof fn lemma_statement_9(x: Expression, rest: Seq<char>)
    requires
        x.grouped(),
    ensures
        Layout::Middle.around(Statement::Declare(Type::U64, Declared::One(Name::R, x)).text()) + rest == "uint64_t r = "@ + (x.text() + ("; "@ + (rest))),
        Statement::Declare(Type::U64, Declared::One(Name::R, x)).grouped(),
{
    reveal_strlit(" ");
    reveal_strlit(" = ");
    reveal_strlit(";");
    reveal_strlit("; ");
    reveal_strlit("r");
    reveal_strlit("uint64_t");
    reveal_strlit("uint64_t r = ");
    small_c::lemma_numbers();
    reveal(Statement::text);
    reveal(Statement::grouped);
    reveal_with_fuel(Declared::text, 2);
    reveal_with_fuel(Declared::grouped, 2);
    reveal_with_fuel(Expression::text, 2);
    reveal_with_fuel(Expression::grouped, 2);
    assert(Layout::Middle.around(Statement::Declare(Type::U64, Declared::One(Name::R, x)).text()) + rest =~= "uint64_t r = "@ + (x.text() + ("; "@ + (rest))));
}

proof fn lemma_text_3(x0: Seq<char>, x1: Seq<char>, x2: Seq<char>, x3: Seq<char>, rest: Seq<char>)
    ensures
        text::fill("    { uint64_t r = {}; ctx->r[{}] = (uint32_t)r; ctx->r[{}] = (uint32_t)(r >> 32);{} }"@, seq![x0, x1, x2, x3]) + rest == "    { uint64_t r = "@ + (x0 + ("; ctx->r["@ + (x1 + ("] = (uint32_t)r; ctx->r["@ + (x2 + ("] = (uint32_t)(r >> 32);"@ + (x3 + (" }"@ + (rest))))))))),
{
    reveal_strlit("    { uint64_t r = {}; ctx->r[{}] = (uint32_t)r; ctx->r[{}] = (uint32_t)(r >> 32);{} }");
    reveal_strlit("{}");
    reveal_strlit("    { uint64_t r = ");
    reveal_strlit("; ctx->r[");
    reveal_strlit("] = (uint32_t)r; ctx->r[");
    reveal_strlit("] = (uint32_t)(r >> 32);");
    reveal_strlit(" }");
    assert("    { uint64_t r = {}; ctx->r[{}] = (uint32_t)r; ctx->r[{}] = (uint32_t)(r >> 32);{} }"@ =~= "    { uint64_t r = "@ + "{}"@ + ("; ctx->r["@ + "{}"@ + ("] = (uint32_t)r; ctx->r["@ + "{}"@ + ("] = (uint32_t)(r >> 32);"@ + "{}"@ + (" }"@)))));
    let args_0 = seq![x0, x1, x2, x3];
    let args_1 = seq![x1, x2, x3];
    let args_2 = seq![x2, x3];
    let args_3 = seq![x3];
    let args_4 = Seq::<Seq<char>>::empty();
    assert(args_0.skip(1) =~= args_1);
    assert(args_1.skip(1) =~= args_2);
    assert(args_2.skip(1) =~= args_3);
    assert(args_3.skip(1) =~= args_4);
    lemma_hole("    { uint64_t r = "@, "; ctx->r["@ + "{}"@ + ("] = (uint32_t)r; ctx->r["@ + "{}"@ + ("] = (uint32_t)(r >> 32);"@ + "{}"@ + (" }"@))), args_0);
    lemma_hole("; ctx->r["@, "] = (uint32_t)r; ctx->r["@ + "{}"@ + ("] = (uint32_t)(r >> 32);"@ + "{}"@ + (" }"@)), args_1);
    lemma_hole("] = (uint32_t)r; ctx->r["@, "] = (uint32_t)(r >> 32);"@ + "{}"@ + (" }"@), args_2);
    lemma_hole("] = (uint32_t)(r >> 32);"@, " }"@, args_3);
    lemma_plain(" }"@);
    assert(text::fill("    { uint64_t r = {}; ctx->r[{}] = (uint32_t)r; ctx->r[{}] = (uint32_t)(r >> 32);{} }"@, seq![x0, x1, x2, x3]) + rest =~= "    { uint64_t r = "@ + (x0 + ("; ctx->r["@ + (x1 + ("] = (uint32_t)r; ctx->r["@ + (x2 + ("] = (uint32_t)(r >> 32);"@ + (x3 + (" }"@ + (rest))))))))));
}

proof fn lemma_letters_5(rest: Seq<char>)
    ensures
        "] = (uint32_t)(r >> 32); "@ + ("}\n"@ + (rest)) == "] = (uint32_t)(r >> 32);"@ + (""@ + (" }"@ + ("\n"@ + (rest)))),
{
    reveal_strlit("] = (uint32_t)(r >> 32); ");
    reveal_strlit("}\n");
    reveal_strlit("] = (uint32_t)(r >> 32);");
    reveal_strlit("");
    reveal_strlit(" }");
    reveal_strlit("\n");
    assert("] = (uint32_t)(r >> 32); "@ + ("}\n"@ + (rest)) =~= "] = (uint32_t)(r >> 32);"@ + (""@ + (" }"@ + ("\n"@ + (rest)))));
}

proof fn lemma_letters_6(rest: Seq<char>)
    ensures
        "] = (uint32_t)r; "@ + ("ctx->r["@ + (rest)) == "] = (uint32_t)r; ctx->r["@ + (rest),
{
    reveal_strlit("] = (uint32_t)r; ");
    reveal_strlit("ctx->r[");
    reveal_strlit("] = (uint32_t)r; ctx->r[");
    assert("] = (uint32_t)r; "@ + ("ctx->r["@ + (rest)) =~= "] = (uint32_t)r; ctx->r["@ + (rest));
}

proof fn lemma_letters_7(rest: Seq<char>)
    ensures
        "    { "@ + ("uint64_t r = "@ + (rest)) == "    { uint64_t r = "@ + (rest),
{
    reveal_strlit("    { ");
    reveal_strlit("uint64_t r = ");
    reveal_strlit("    { uint64_t r = ");
    assert("    { "@ + ("uint64_t r = "@ + (rest)) =~= "    { uint64_t r = "@ + (rest));
}

pub open spec fn long_line(x: Expression, lo: nat, hi: nat) -> Program {
    Program::Then(
        Layout::First,
        Statement::Open,
        Box::new(Program::Then(
        Layout::Middle,
        Statement::Declare(Type::U64, Declared::One(Name::R, x)),
        Box::new(Program::Then(
        Layout::Middle,
        Statement::Assign(Place::Register(lo), Expression::Cast(Type::U32, Box::new(Expression::Local(Name::R)))),
        Box::new(Program::Then(
        Layout::Middle,
        Statement::Assign(Place::Register(hi), Expression::Cast(Type::U32, Box::new(Expression::Group(Box::new(Expression::Two(Operator::Right, Box::new(Expression::Local(Name::R)), Box::new(Expression::Int(32)))))))),
        Box::new(Program::Then(
        Layout::Last,
        Statement::Close,
        Box::new(Program::End),
    )),
    )),
    )),
    )),
    )
}

pub proof fn lemma_long_line(x: Expression, lo: nat, hi: nat)
    requires
        x.grouped(),
    ensures
        long_line(x, lo, hi).text() == text::fill("    { uint64_t r = {}; ctx->r[{}] = (uint32_t)r; ctx->r[{}] = (uint32_t)(r >> 32);{} }"@, seq![x.text(), text::dec(lo), text::dec(hi), ""@]).push('\n'),
        long_line(x, lo, hi).grouped(),
{
    reveal_with_fuel(Program::text, 6);
    reveal_with_fuel(Program::grouped, 6);
    lemma_statement_0(Seq::<char>::empty());
    lemma_statement_7(hi, "}\n"@ + (Seq::<char>::empty()));
    lemma_statement_8(lo, "ctx->r["@ + (text::dec(hi) + ("] = (uint32_t)(r >> 32); "@ + ("}\n"@ + (Seq::<char>::empty())))));
    lemma_statement_9(x, "ctx->r["@ + (text::dec(lo) + ("] = (uint32_t)r; "@ + ("ctx->r["@ + (text::dec(hi) + ("] = (uint32_t)(r >> 32); "@ + ("}\n"@ + (Seq::<char>::empty()))))))));
    lemma_statement_3("uint64_t r = "@ + (x.text() + ("; "@ + ("ctx->r["@ + (text::dec(lo) + ("] = (uint32_t)r; "@ + ("ctx->r["@ + (text::dec(hi) + ("] = (uint32_t)(r >> 32); "@ + ("}\n"@ + (Seq::<char>::empty())))))))))));
    assert(""@ == ""@);
    lemma_text_3(x.text(), text::dec(lo), text::dec(hi), ""@, "\n"@ + Seq::<char>::empty());
    lemma_letters_5(Seq::<char>::empty());
    lemma_letters_6(text::dec(hi) + ("] = (uint32_t)(r >> 32);"@ + (""@ + (" }"@ + ("\n"@ + (Seq::<char>::empty()))))));
    lemma_letters_4(text::dec(lo) + ("] = (uint32_t)r; ctx->r["@ + (text::dec(hi) + ("] = (uint32_t)(r >> 32);"@ + (""@ + (" }"@ + ("\n"@ + (Seq::<char>::empty()))))))));
    lemma_letters_7(x.text() + ("; ctx->r["@ + (text::dec(lo) + ("] = (uint32_t)r; ctx->r["@ + (text::dec(hi) + ("] = (uint32_t)(r >> 32);"@ + (""@ + (" }"@ + ("\n"@ + (Seq::<char>::empty()))))))))));
    reveal_strlit("\n");
    assert(text::fill("    { uint64_t r = {}; ctx->r[{}] = (uint32_t)r; ctx->r[{}] = (uint32_t)(r >> 32);{} }"@, seq![x.text(), text::dec(lo), text::dec(hi), ""@]).push('\n') =~= text::fill("    { uint64_t r = {}; ctx->r[{}] = (uint32_t)r; ctx->r[{}] = (uint32_t)(r >> 32);{} }"@, seq![x.text(), text::dec(lo), text::dec(hi), ""@]) + ("\n"@ + Seq::<char>::empty()));
    assert(long_line(x, lo, hi).text() == text::fill("    { uint64_t r = {}; ctx->r[{}] = (uint32_t)r; ctx->r[{}] = (uint32_t)(r >> 32);{} }"@, seq![x.text(), text::dec(lo), text::dec(hi), ""@]).push('\n'));
}

proof fn lemma_statement_10(rest: Seq<char>)
    ensures
        Layout::Middle.around(Statement::Assign(Place::Field(Field::N), Expression::Two(Operator::Right, Box::new(Expression::Local(Name::R)), Box::new(Expression::Int(63)))).text()) + rest == "ctx->n = r >> 63; "@ + (rest),
        Statement::Assign(Place::Field(Field::N), Expression::Two(Operator::Right, Box::new(Expression::Local(Name::R)), Box::new(Expression::Int(63)))).grouped(),
{
    reveal_strlit(" ");
    reveal_strlit(" = ");
    reveal_strlit(" >> ");
    reveal_strlit("63");
    reveal_strlit(";");
    reveal_strlit("ctx->n");
    reveal_strlit("ctx->n = r >> 63; ");
    reveal_strlit("r");
    small_c::lemma_numbers();
    reveal(Statement::text);
    reveal(Statement::grouped);
    reveal_with_fuel(Expression::text, 3);
    reveal_with_fuel(Expression::grouped, 3);
    assert(Layout::Middle.around(Statement::Assign(Place::Field(Field::N), Expression::Two(Operator::Right, Box::new(Expression::Local(Name::R)), Box::new(Expression::Int(63)))).text()) + rest =~= "ctx->n = r >> 63; "@ + (rest));
}

proof fn lemma_letters_8(rest: Seq<char>)
    ensures
        "] = (uint32_t)(r >> 32); "@ + ("ctx->n = r >> 63; "@ + ("ctx->z = r == 0; "@ + ("}\n"@ + (rest)))) == "] = (uint32_t)(r >> 32);"@ + (" ctx->n = r >> 63; ctx->z = r == 0;"@ + (" }"@ + ("\n"@ + (rest)))),
{
    reveal_strlit("] = (uint32_t)(r >> 32); ");
    reveal_strlit("ctx->n = r >> 63; ");
    reveal_strlit("ctx->z = r == 0; ");
    reveal_strlit("}\n");
    reveal_strlit("] = (uint32_t)(r >> 32);");
    reveal_strlit(" ctx->n = r >> 63; ctx->z = r == 0;");
    reveal_strlit(" }");
    reveal_strlit("\n");
    assert("] = (uint32_t)(r >> 32); "@ + ("ctx->n = r >> 63; "@ + ("ctx->z = r == 0; "@ + ("}\n"@ + (rest)))) =~= "] = (uint32_t)(r >> 32);"@ + (" ctx->n = r >> 63; ctx->z = r == 0;"@ + (" }"@ + ("\n"@ + (rest)))));
}

pub open spec fn long_signs_line(x: Expression, lo: nat, hi: nat) -> Program {
    Program::Then(
        Layout::First,
        Statement::Open,
        Box::new(Program::Then(
        Layout::Middle,
        Statement::Declare(Type::U64, Declared::One(Name::R, x)),
        Box::new(Program::Then(
        Layout::Middle,
        Statement::Assign(Place::Register(lo), Expression::Cast(Type::U32, Box::new(Expression::Local(Name::R)))),
        Box::new(Program::Then(
        Layout::Middle,
        Statement::Assign(Place::Register(hi), Expression::Cast(Type::U32, Box::new(Expression::Group(Box::new(Expression::Two(Operator::Right, Box::new(Expression::Local(Name::R)), Box::new(Expression::Int(32)))))))),
        Box::new(Program::Then(
        Layout::Middle,
        Statement::Assign(Place::Field(Field::N), Expression::Two(Operator::Right, Box::new(Expression::Local(Name::R)), Box::new(Expression::Int(63)))),
        Box::new(Program::Then(
        Layout::Middle,
        Statement::Assign(Place::Field(Field::Z), Expression::Two(Operator::Equal, Box::new(Expression::Local(Name::R)), Box::new(Expression::Int(0)))),
        Box::new(Program::Then(
        Layout::Last,
        Statement::Close,
        Box::new(Program::End),
    )),
    )),
    )),
    )),
    )),
    )),
    )
}

pub proof fn lemma_long_signs_line(x: Expression, lo: nat, hi: nat)
    requires
        x.grouped(),
    ensures
        long_signs_line(x, lo, hi).text() == text::fill("    { uint64_t r = {}; ctx->r[{}] = (uint32_t)r; ctx->r[{}] = (uint32_t)(r >> 32);{} }"@, seq![x.text(), text::dec(lo), text::dec(hi), " ctx->n = r >> 63; ctx->z = r == 0;"@]).push('\n'),
        long_signs_line(x, lo, hi).grouped(),
{
    reveal_with_fuel(Program::text, 8);
    reveal_with_fuel(Program::grouped, 8);
    lemma_statement_0(Seq::<char>::empty());
    lemma_statement_4("}\n"@ + (Seq::<char>::empty()));
    lemma_statement_10("ctx->z = r == 0; "@ + ("}\n"@ + (Seq::<char>::empty())));
    lemma_statement_7(hi, "ctx->n = r >> 63; "@ + ("ctx->z = r == 0; "@ + ("}\n"@ + (Seq::<char>::empty()))));
    lemma_statement_8(lo, "ctx->r["@ + (text::dec(hi) + ("] = (uint32_t)(r >> 32); "@ + ("ctx->n = r >> 63; "@ + ("ctx->z = r == 0; "@ + ("}\n"@ + (Seq::<char>::empty())))))));
    lemma_statement_9(x, "ctx->r["@ + (text::dec(lo) + ("] = (uint32_t)r; "@ + ("ctx->r["@ + (text::dec(hi) + ("] = (uint32_t)(r >> 32); "@ + ("ctx->n = r >> 63; "@ + ("ctx->z = r == 0; "@ + ("}\n"@ + (Seq::<char>::empty()))))))))));
    lemma_statement_3("uint64_t r = "@ + (x.text() + ("; "@ + ("ctx->r["@ + (text::dec(lo) + ("] = (uint32_t)r; "@ + ("ctx->r["@ + (text::dec(hi) + ("] = (uint32_t)(r >> 32); "@ + ("ctx->n = r >> 63; "@ + ("ctx->z = r == 0; "@ + ("}\n"@ + (Seq::<char>::empty())))))))))))));
    assert(" ctx->n = r >> 63; ctx->z = r == 0;"@ == " ctx->n = r >> 63; ctx->z = r == 0;"@);
    lemma_text_3(x.text(), text::dec(lo), text::dec(hi), " ctx->n = r >> 63; ctx->z = r == 0;"@, "\n"@ + Seq::<char>::empty());
    lemma_letters_8(Seq::<char>::empty());
    lemma_letters_6(text::dec(hi) + ("] = (uint32_t)(r >> 32);"@ + (" ctx->n = r >> 63; ctx->z = r == 0;"@ + (" }"@ + ("\n"@ + (Seq::<char>::empty()))))));
    lemma_letters_4(text::dec(lo) + ("] = (uint32_t)r; ctx->r["@ + (text::dec(hi) + ("] = (uint32_t)(r >> 32);"@ + (" ctx->n = r >> 63; ctx->z = r == 0;"@ + (" }"@ + ("\n"@ + (Seq::<char>::empty()))))))));
    lemma_letters_7(x.text() + ("; ctx->r["@ + (text::dec(lo) + ("] = (uint32_t)r; ctx->r["@ + (text::dec(hi) + ("] = (uint32_t)(r >> 32);"@ + (" ctx->n = r >> 63; ctx->z = r == 0;"@ + (" }"@ + ("\n"@ + (Seq::<char>::empty()))))))))));
    reveal_strlit("\n");
    assert(text::fill("    { uint64_t r = {}; ctx->r[{}] = (uint32_t)r; ctx->r[{}] = (uint32_t)(r >> 32);{} }"@, seq![x.text(), text::dec(lo), text::dec(hi), " ctx->n = r >> 63; ctx->z = r == 0;"@]).push('\n') =~= text::fill("    { uint64_t r = {}; ctx->r[{}] = (uint32_t)r; ctx->r[{}] = (uint32_t)(r >> 32);{} }"@, seq![x.text(), text::dec(lo), text::dec(hi), " ctx->n = r >> 63; ctx->z = r == 0;"@]) + ("\n"@ + Seq::<char>::empty()));
    assert(long_signs_line(x, lo, hi).text() == text::fill("    { uint64_t r = {}; ctx->r[{}] = (uint32_t)r; ctx->r[{}] = (uint32_t)(r >> 32);{} }"@, seq![x.text(), text::dec(lo), text::dec(hi), " ctx->n = r >> 63; ctx->z = r == 0;"@]).push('\n'));
}

proof fn lemma_text_4(x0: Seq<char>, x1: Seq<char>, x2: Seq<char>, x3: Seq<char>, rest: Seq<char>)
    ensures
        text::fill("(uint64_t){} * {} + ctx->r[{}] + ctx->r[{}]"@, seq![x0, x1, x2, x3]) + rest == "(uint64_t)"@ + (x0 + (" * "@ + (x1 + (" + ctx->r["@ + (x2 + ("] + ctx->r["@ + (x3 + ("]"@ + (rest))))))))),
{
    reveal_strlit("(uint64_t){} * {} + ctx->r[{}] + ctx->r[{}]");
    reveal_strlit("{}");
    reveal_strlit("(uint64_t)");
    reveal_strlit(" * ");
    reveal_strlit(" + ctx->r[");
    reveal_strlit("] + ctx->r[");
    reveal_strlit("]");
    assert("(uint64_t){} * {} + ctx->r[{}] + ctx->r[{}]"@ =~= "(uint64_t)"@ + "{}"@ + (" * "@ + "{}"@ + (" + ctx->r["@ + "{}"@ + ("] + ctx->r["@ + "{}"@ + ("]"@)))));
    let args_0 = seq![x0, x1, x2, x3];
    let args_1 = seq![x1, x2, x3];
    let args_2 = seq![x2, x3];
    let args_3 = seq![x3];
    let args_4 = Seq::<Seq<char>>::empty();
    assert(args_0.skip(1) =~= args_1);
    assert(args_1.skip(1) =~= args_2);
    assert(args_2.skip(1) =~= args_3);
    assert(args_3.skip(1) =~= args_4);
    lemma_hole("(uint64_t)"@, " * "@ + "{}"@ + (" + ctx->r["@ + "{}"@ + ("] + ctx->r["@ + "{}"@ + ("]"@))), args_0);
    lemma_hole(" * "@, " + ctx->r["@ + "{}"@ + ("] + ctx->r["@ + "{}"@ + ("]"@)), args_1);
    lemma_hole(" + ctx->r["@, "] + ctx->r["@ + "{}"@ + ("]"@), args_2);
    lemma_hole("] + ctx->r["@, "]"@, args_3);
    lemma_plain("]"@);
    assert(text::fill("(uint64_t){} * {} + ctx->r[{}] + ctx->r[{}]"@, seq![x0, x1, x2, x3]) + rest =~= "(uint64_t)"@ + (x0 + (" * "@ + (x1 + (" + ctx->r["@ + (x2 + ("] + ctx->r["@ + (x3 + ("]"@ + (rest))))))))));
}

pub open spec fn umaal(x: Expression, y: Expression, hi: nat, lo: nat) -> Expression {
    Expression::Two(Operator::Plus, Box::new(Expression::Two(Operator::Plus, Box::new(Expression::Two(Operator::Times, Box::new(Expression::Cast(Type::U64, Box::new(x))), Box::new(y))), Box::new(Expression::Register(lo)))), Box::new(Expression::Register(hi)))
}

#[verifier::rlimit(60)]
pub proof fn lemma_umaal(x: Expression, y: Expression, hi: nat, lo: nat)
    requires
        x.grouped(),
        y.grouped(),
        x.strength() == 16,
        y.strength() == 16,
    ensures
        umaal(x, y, hi, lo).text() == text::fill("(uint64_t){} * {} + ctx->r[{}] + ctx->r[{}]"@, seq![x.text(), y.text(), text::dec(lo), text::dec(hi)]),
        umaal(x, y, hi, lo).grouped(),
{
    reveal_strlit(" * ");
    reveal_strlit(" + ");
    reveal_strlit(" + ctx->r[");
    reveal_strlit("(");
    reveal_strlit("(uint64_t)");
    reveal_strlit(")");
    reveal_strlit("]");
    reveal_strlit("] + ctx->r[");
    reveal_strlit("ctx->r[");
    reveal_strlit("uint64_t");
    small_c::lemma_numbers();
    lemma_text_4(x.text(), y.text(), text::dec(lo), text::dec(hi), Seq::<char>::empty());
    reveal_with_fuel(Expression::text, 5);
    reveal_with_fuel(Expression::grouped, 5);
    let whole = text::fill("(uint64_t){} * {} + ctx->r[{}] + ctx->r[{}]"@, seq![x.text(), y.text(), text::dec(lo), text::dec(hi)]) + Seq::<char>::empty();
    assert(whole =~= text::fill("(uint64_t){} * {} + ctx->r[{}] + ctx->r[{}]"@, seq![x.text(), y.text(), text::dec(lo), text::dec(hi)]));
    assert(umaal(x, y, hi, lo).text() =~= whole);
}

proof fn lemma_text_5(x0: Seq<char>, x1: Seq<char>, rest: Seq<char>)
    ensures
        text::fill("(uint64_t){} * {}"@, seq![x0, x1]) + rest == "(uint64_t)"@ + (x0 + (" * "@ + (x1 + (rest)))),
{
    reveal_strlit("(uint64_t){} * {}");
    reveal_strlit("{}");
    reveal_strlit("(uint64_t)");
    reveal_strlit(" * ");
    reveal_strlit("");
    assert("(uint64_t){} * {}"@ =~= "(uint64_t)"@ + "{}"@ + (" * "@ + "{}"@ + (""@)));
    let args_0 = seq![x0, x1];
    let args_1 = seq![x1];
    let args_2 = Seq::<Seq<char>>::empty();
    assert(args_0.skip(1) =~= args_1);
    assert(args_1.skip(1) =~= args_2);
    lemma_hole("(uint64_t)"@, " * "@ + "{}"@ + (""@), args_0);
    lemma_hole(" * "@, ""@, args_1);
    lemma_plain(""@);
    assert(text::fill("(uint64_t){} * {}"@, seq![x0, x1]) + rest =~= "(uint64_t)"@ + (x0 + (" * "@ + (x1 + (rest)))));
}

pub open spec fn umull(x: Expression, y: Expression) -> Expression {
    Expression::Two(Operator::Times, Box::new(Expression::Cast(Type::U64, Box::new(x))), Box::new(y))
}

pub proof fn lemma_umull(x: Expression, y: Expression)
    requires
        x.grouped(),
        y.grouped(),
        x.strength() == 16,
        y.strength() == 16,
    ensures
        umull(x, y).text() == text::fill("(uint64_t){} * {}"@, seq![x.text(), y.text()]),
        umull(x, y).grouped(),
{
    reveal_strlit(" * ");
    reveal_strlit("(");
    reveal_strlit("(uint64_t)");
    reveal_strlit(")");
    reveal_strlit("uint64_t");
    small_c::lemma_numbers();
    lemma_text_5(x.text(), y.text(), Seq::<char>::empty());
    reveal_with_fuel(Expression::text, 3);
    reveal_with_fuel(Expression::grouped, 3);
    let whole = text::fill("(uint64_t){} * {}"@, seq![x.text(), y.text()]) + Seq::<char>::empty();
    assert(whole =~= text::fill("(uint64_t){} * {}"@, seq![x.text(), y.text()]));
    assert(umull(x, y).text() =~= whole);
}

proof fn lemma_text_6(x0: Seq<char>, x1: Seq<char>, x2: Seq<char>, rest: Seq<char>)
    ensures
        text::fill("(uint64_t){} * {} + {}"@, seq![x0, x1, x2]) + rest == "(uint64_t)"@ + (x0 + (" * "@ + (x1 + (" + "@ + (x2 + (rest)))))),
{
    reveal_strlit("(uint64_t){} * {} + {}");
    reveal_strlit("{}");
    reveal_strlit("(uint64_t)");
    reveal_strlit(" * ");
    reveal_strlit(" + ");
    reveal_strlit("");
    assert("(uint64_t){} * {} + {}"@ =~= "(uint64_t)"@ + "{}"@ + (" * "@ + "{}"@ + (" + "@ + "{}"@ + (""@))));
    let args_0 = seq![x0, x1, x2];
    let args_1 = seq![x1, x2];
    let args_2 = seq![x2];
    let args_3 = Seq::<Seq<char>>::empty();
    assert(args_0.skip(1) =~= args_1);
    assert(args_1.skip(1) =~= args_2);
    assert(args_2.skip(1) =~= args_3);
    lemma_hole("(uint64_t)"@, " * "@ + "{}"@ + (" + "@ + "{}"@ + (""@)), args_0);
    lemma_hole(" * "@, " + "@ + "{}"@ + (""@), args_1);
    lemma_hole(" + "@, ""@, args_2);
    lemma_plain(""@);
    assert(text::fill("(uint64_t){} * {} + {}"@, seq![x0, x1, x2]) + rest =~= "(uint64_t)"@ + (x0 + (" * "@ + (x1 + (" + "@ + (x2 + (rest)))))));
}

proof fn lemma_text_7(x0: Seq<char>, x1: Seq<char>, rest: Seq<char>)
    ensures
        text::fill("((uint64_t)ctx->r[{}] << 32 | ctx->r[{}])"@, seq![x0, x1]) + rest == "((uint64_t)ctx->r["@ + (x0 + ("] << 32 | ctx->r["@ + (x1 + ("])"@ + (rest))))),
{
    reveal_strlit("((uint64_t)ctx->r[{}] << 32 | ctx->r[{}])");
    reveal_strlit("{}");
    reveal_strlit("((uint64_t)ctx->r[");
    reveal_strlit("] << 32 | ctx->r[");
    reveal_strlit("])");
    assert("((uint64_t)ctx->r[{}] << 32 | ctx->r[{}])"@ =~= "((uint64_t)ctx->r["@ + "{}"@ + ("] << 32 | ctx->r["@ + "{}"@ + ("])"@)));
    let args_0 = seq![x0, x1];
    let args_1 = seq![x1];
    let args_2 = Seq::<Seq<char>>::empty();
    assert(args_0.skip(1) =~= args_1);
    assert(args_1.skip(1) =~= args_2);
    lemma_hole("((uint64_t)ctx->r["@, "] << 32 | ctx->r["@ + "{}"@ + ("])"@), args_0);
    lemma_hole("] << 32 | ctx->r["@, "])"@, args_1);
    lemma_plain("])"@);
    assert(text::fill("((uint64_t)ctx->r[{}] << 32 | ctx->r[{}])"@, seq![x0, x1]) + rest =~= "((uint64_t)ctx->r["@ + (x0 + ("] << 32 | ctx->r["@ + (x1 + ("])"@ + (rest))))));
}

pub open spec fn umlal(x: Expression, y: Expression, hi: nat, lo: nat) -> Expression {
    Expression::Two(Operator::Plus, Box::new(Expression::Two(Operator::Times, Box::new(Expression::Cast(Type::U64, Box::new(x))), Box::new(y))), Box::new(Expression::Group(Box::new(Expression::Two(Operator::Or, Box::new(Expression::Two(Operator::Left, Box::new(Expression::Cast(Type::U64, Box::new(Expression::Register(hi)))), Box::new(Expression::Int(32)))), Box::new(Expression::Register(lo)))))))
}

#[verifier::rlimit(60)]
#[verifier::rlimit(60)]
pub proof fn lemma_umlal(x: Expression, y: Expression, hi: nat, lo: nat)
    requires
        x.grouped(),
        y.grouped(),
        x.strength() == 16,
        y.strength() == 16,
    ensures
        umlal(x, y, hi, lo).text() == text::fill("(uint64_t){} * {} + {}"@, seq![x.text(), y.text(), text::fill("((uint64_t)ctx->r[{}] << 32 | ctx->r[{}])"@, seq![text::dec(hi), text::dec(lo)])]),
        umlal(x, y, hi, lo).grouped(),
{
    reveal_strlit(" * ");
    reveal_strlit(" + ");
    reveal_strlit(" << ");
    reveal_strlit(" | ");
    reveal_strlit("(");
    reveal_strlit("((uint64_t)ctx->r[");
    reveal_strlit("(uint64_t)");
    reveal_strlit(")");
    reveal_strlit("32");
    reveal_strlit("]");
    reveal_strlit("] << 32 | ctx->r[");
    reveal_strlit("])");
    reveal_strlit("ctx->r[");
    reveal_strlit("uint64_t");
    small_c::lemma_numbers();
    lemma_text_7(text::dec(hi), text::dec(lo), Seq::<char>::empty());
    lemma_text_6(x.text(), y.text(), text::fill("((uint64_t)ctx->r[{}] << 32 | ctx->r[{}])"@, seq![text::dec(hi), text::dec(lo)]), Seq::<char>::empty());
    reveal_with_fuel(Expression::text, 7);
    reveal_with_fuel(Expression::grouped, 7);
    let whole = text::fill("(uint64_t){} * {} + {}"@, seq![x.text(), y.text(), text::fill("((uint64_t)ctx->r[{}] << 32 | ctx->r[{}])"@, seq![text::dec(hi), text::dec(lo)])]) + Seq::<char>::empty();
    assert(whole =~= text::fill("(uint64_t){} * {} + {}"@, seq![x.text(), y.text(), text::fill("((uint64_t)ctx->r[{}] << 32 | ctx->r[{}])"@, seq![text::dec(hi), text::dec(lo)])]));
    assert(umlal(x, y, hi, lo).text() =~= whole);
}

proof fn lemma_text_8(x0: Seq<char>, x1: Seq<char>, rest: Seq<char>)
    ensures
        text::fill("(uint64_t)((int64_t)(int32_t){} * (int32_t){})"@, seq![x0, x1]) + rest == "(uint64_t)((int64_t)(int32_t)"@ + (x0 + (" * (int32_t)"@ + (x1 + (")"@ + (rest))))),
{
    reveal_strlit("(uint64_t)((int64_t)(int32_t){} * (int32_t){})");
    reveal_strlit("{}");
    reveal_strlit("(uint64_t)((int64_t)(int32_t)");
    reveal_strlit(" * (int32_t)");
    reveal_strlit(")");
    assert("(uint64_t)((int64_t)(int32_t){} * (int32_t){})"@ =~= "(uint64_t)((int64_t)(int32_t)"@ + "{}"@ + (" * (int32_t)"@ + "{}"@ + (")"@)));
    let args_0 = seq![x0, x1];
    let args_1 = seq![x1];
    let args_2 = Seq::<Seq<char>>::empty();
    assert(args_0.skip(1) =~= args_1);
    assert(args_1.skip(1) =~= args_2);
    lemma_hole("(uint64_t)((int64_t)(int32_t)"@, " * (int32_t)"@ + "{}"@ + (")"@), args_0);
    lemma_hole(" * (int32_t)"@, ")"@, args_1);
    lemma_plain(")"@);
    assert(text::fill("(uint64_t)((int64_t)(int32_t){} * (int32_t){})"@, seq![x0, x1]) + rest =~= "(uint64_t)((int64_t)(int32_t)"@ + (x0 + (" * (int32_t)"@ + (x1 + (")"@ + (rest))))));
}

pub open spec fn smull(x: Expression, y: Expression) -> Expression {
    Expression::Cast(Type::U64, Box::new(Expression::Group(Box::new(Expression::Two(Operator::Times, Box::new(Expression::Cast(Type::I64, Box::new(Expression::Cast(Type::I32, Box::new(x))))), Box::new(Expression::Cast(Type::I32, Box::new(y))))))))
}

#[verifier::rlimit(60)]
pub proof fn lemma_smull(x: Expression, y: Expression)
    requires
        x.grouped(),
        y.grouped(),
        x.strength() == 16,
        y.strength() == 16,
    ensures
        smull(x, y).text() == text::fill("(uint64_t)((int64_t)(int32_t){} * (int32_t){})"@, seq![x.text(), y.text()]),
        smull(x, y).grouped(),
{
    reveal_strlit(" * ");
    reveal_strlit(" * (int32_t)");
    reveal_strlit("(");
    reveal_strlit("(uint64_t)((int64_t)(int32_t)");
    reveal_strlit(")");
    reveal_strlit("int32_t");
    reveal_strlit("int64_t");
    reveal_strlit("uint64_t");
    small_c::lemma_numbers();
    lemma_text_8(x.text(), y.text(), Seq::<char>::empty());
    reveal_with_fuel(Expression::text, 6);
    reveal_with_fuel(Expression::grouped, 6);
    let whole = text::fill("(uint64_t)((int64_t)(int32_t){} * (int32_t){})"@, seq![x.text(), y.text()]) + Seq::<char>::empty();
    assert(whole =~= text::fill("(uint64_t)((int64_t)(int32_t){} * (int32_t){})"@, seq![x.text(), y.text()]));
    assert(smull(x, y).text() =~= whole);
}

proof fn lemma_text_9(x0: Seq<char>, x1: Seq<char>, x2: Seq<char>, rest: Seq<char>)
    ensures
        text::fill("(uint64_t)((int64_t)(int32_t){} * (int32_t){}) + {}"@, seq![x0, x1, x2]) + rest == "(uint64_t)((int64_t)(int32_t)"@ + (x0 + (" * (int32_t)"@ + (x1 + (") + "@ + (x2 + (rest)))))),
{
    reveal_strlit("(uint64_t)((int64_t)(int32_t){} * (int32_t){}) + {}");
    reveal_strlit("{}");
    reveal_strlit("(uint64_t)((int64_t)(int32_t)");
    reveal_strlit(" * (int32_t)");
    reveal_strlit(") + ");
    reveal_strlit("");
    assert("(uint64_t)((int64_t)(int32_t){} * (int32_t){}) + {}"@ =~= "(uint64_t)((int64_t)(int32_t)"@ + "{}"@ + (" * (int32_t)"@ + "{}"@ + (") + "@ + "{}"@ + (""@))));
    let args_0 = seq![x0, x1, x2];
    let args_1 = seq![x1, x2];
    let args_2 = seq![x2];
    let args_3 = Seq::<Seq<char>>::empty();
    assert(args_0.skip(1) =~= args_1);
    assert(args_1.skip(1) =~= args_2);
    assert(args_2.skip(1) =~= args_3);
    lemma_hole("(uint64_t)((int64_t)(int32_t)"@, " * (int32_t)"@ + "{}"@ + (") + "@ + "{}"@ + (""@)), args_0);
    lemma_hole(" * (int32_t)"@, ") + "@ + "{}"@ + (""@), args_1);
    lemma_hole(") + "@, ""@, args_2);
    lemma_plain(""@);
    assert(text::fill("(uint64_t)((int64_t)(int32_t){} * (int32_t){}) + {}"@, seq![x0, x1, x2]) + rest =~= "(uint64_t)((int64_t)(int32_t)"@ + (x0 + (" * (int32_t)"@ + (x1 + (") + "@ + (x2 + (rest)))))));
}

pub open spec fn smlal(x: Expression, y: Expression, hi: nat, lo: nat) -> Expression {
    Expression::Two(Operator::Plus, Box::new(Expression::Cast(Type::U64, Box::new(Expression::Group(Box::new(Expression::Two(Operator::Times, Box::new(Expression::Cast(Type::I64, Box::new(Expression::Cast(Type::I32, Box::new(x))))), Box::new(Expression::Cast(Type::I32, Box::new(y))))))))), Box::new(Expression::Group(Box::new(Expression::Two(Operator::Or, Box::new(Expression::Two(Operator::Left, Box::new(Expression::Cast(Type::U64, Box::new(Expression::Register(hi)))), Box::new(Expression::Int(32)))), Box::new(Expression::Register(lo)))))))
}

#[verifier::rlimit(60)]
#[verifier::rlimit(60)]
pub proof fn lemma_smlal(x: Expression, y: Expression, hi: nat, lo: nat)
    requires
        x.grouped(),
        y.grouped(),
        x.strength() == 16,
        y.strength() == 16,
    ensures
        smlal(x, y, hi, lo).text() == text::fill("(uint64_t)((int64_t)(int32_t){} * (int32_t){}) + {}"@, seq![x.text(), y.text(), text::fill("((uint64_t)ctx->r[{}] << 32 | ctx->r[{}])"@, seq![text::dec(hi), text::dec(lo)])]),
        smlal(x, y, hi, lo).grouped(),
{
    reveal_strlit(" * ");
    reveal_strlit(" * (int32_t)");
    reveal_strlit(" + ");
    reveal_strlit(" << ");
    reveal_strlit(" | ");
    reveal_strlit("(");
    reveal_strlit("((uint64_t)ctx->r[");
    reveal_strlit("(uint64_t)((int64_t)(int32_t)");
    reveal_strlit(")");
    reveal_strlit(") + ");
    reveal_strlit("32");
    reveal_strlit("]");
    reveal_strlit("] << 32 | ctx->r[");
    reveal_strlit("])");
    reveal_strlit("ctx->r[");
    reveal_strlit("int32_t");
    reveal_strlit("int64_t");
    reveal_strlit("uint64_t");
    small_c::lemma_numbers();
    lemma_text_7(text::dec(hi), text::dec(lo), Seq::<char>::empty());
    lemma_text_9(x.text(), y.text(), text::fill("((uint64_t)ctx->r[{}] << 32 | ctx->r[{}])"@, seq![text::dec(hi), text::dec(lo)]), Seq::<char>::empty());
    reveal_with_fuel(Expression::text, 7);
    reveal_with_fuel(Expression::grouped, 7);
    let whole = text::fill("(uint64_t)((int64_t)(int32_t){} * (int32_t){}) + {}"@, seq![x.text(), y.text(), text::fill("((uint64_t)ctx->r[{}] << 32 | ctx->r[{}])"@, seq![text::dec(hi), text::dec(lo)])]) + Seq::<char>::empty();
    assert(whole =~= text::fill("(uint64_t)((int64_t)(int32_t){} * (int32_t){}) + {}"@, seq![x.text(), y.text(), text::fill("((uint64_t)ctx->r[{}] << 32 | ctx->r[{}])"@, seq![text::dec(hi), text::dec(lo)])]));
    assert(smlal(x, y, hi, lo).text() =~= whole);
}

proof fn lemma_statement_11(rd: nat, rest: Seq<char>)
    ensures
        Layout::Middle.around(Statement::Assign(Place::Register(rd), Expression::Either(Box::new(Expression::Local(Name::M)), Box::new(Expression::Call(Function::LeadingZeros, Box::new(Expression::Local(Name::M)))), Box::new(Expression::Int(32)))).text()) + rest == "ctx->r["@ + (text::dec(rd) + ("] = m ? __builtin_clz(m) : 32; "@ + (rest))),
        Statement::Assign(Place::Register(rd), Expression::Either(Box::new(Expression::Local(Name::M)), Box::new(Expression::Call(Function::LeadingZeros, Box::new(Expression::Local(Name::M)))), Box::new(Expression::Int(32)))).grouped(),
{
    reveal_strlit(" ");
    reveal_strlit(" : ");
    reveal_strlit(" = ");
    reveal_strlit(" ? ");
    reveal_strlit(")");
    reveal_strlit("32");
    reveal_strlit(";");
    reveal_strlit("]");
    reveal_strlit("] = m ? __builtin_clz(m) : 32; ");
    reveal_strlit("__builtin_clz(");
    reveal_strlit("ctx->r[");
    reveal_strlit("m");
    small_c::lemma_numbers();
    reveal(Statement::text);
    reveal(Statement::grouped);
    reveal_with_fuel(Expression::text, 4);
    reveal_with_fuel(Expression::grouped, 4);
    assert(Layout::Middle.around(Statement::Assign(Place::Register(rd), Expression::Either(Box::new(Expression::Local(Name::M)), Box::new(Expression::Call(Function::LeadingZeros, Box::new(Expression::Local(Name::M)))), Box::new(Expression::Int(32)))).text()) + rest =~= "ctx->r["@ + (text::dec(rd) + ("] = m ? __builtin_clz(m) : 32; "@ + (rest))));
}

proof fn lemma_statement_12(x: Expression, rest: Seq<char>)
    requires
        x.grouped(),
    ensures
        Layout::Middle.around(Statement::Declare(Type::U32, Declared::One(Name::M, x)).text()) + rest == "uint32_t m = "@ + (x.text() + ("; "@ + (rest))),
        Statement::Declare(Type::U32, Declared::One(Name::M, x)).grouped(),
{
    reveal_strlit(" ");
    reveal_strlit(" = ");
    reveal_strlit(";");
    reveal_strlit("; ");
    reveal_strlit("m");
    reveal_strlit("uint32_t");
    reveal_strlit("uint32_t m = ");
    small_c::lemma_numbers();
    reveal(Statement::text);
    reveal(Statement::grouped);
    reveal_with_fuel(Declared::text, 2);
    reveal_with_fuel(Declared::grouped, 2);
    reveal_with_fuel(Expression::text, 2);
    reveal_with_fuel(Expression::grouped, 2);
    assert(Layout::Middle.around(Statement::Declare(Type::U32, Declared::One(Name::M, x)).text()) + rest =~= "uint32_t m = "@ + (x.text() + ("; "@ + (rest))));
}

proof fn lemma_text_10(x0: Seq<char>, x1: Seq<char>, rest: Seq<char>)
    ensures
        text::fill("    { uint32_t m = {}; ctx->r[{}] = m ? __builtin_clz(m) : 32; }"@, seq![x0, x1]) + rest == "    { uint32_t m = "@ + (x0 + ("; ctx->r["@ + (x1 + ("] = m ? __builtin_clz(m) : 32; }"@ + (rest))))),
{
    reveal_strlit("    { uint32_t m = {}; ctx->r[{}] = m ? __builtin_clz(m) : 32; }");
    reveal_strlit("{}");
    reveal_strlit("    { uint32_t m = ");
    reveal_strlit("; ctx->r[");
    reveal_strlit("] = m ? __builtin_clz(m) : 32; }");
    assert("    { uint32_t m = {}; ctx->r[{}] = m ? __builtin_clz(m) : 32; }"@ =~= "    { uint32_t m = "@ + "{}"@ + ("; ctx->r["@ + "{}"@ + ("] = m ? __builtin_clz(m) : 32; }"@)));
    let args_0 = seq![x0, x1];
    let args_1 = seq![x1];
    let args_2 = Seq::<Seq<char>>::empty();
    assert(args_0.skip(1) =~= args_1);
    assert(args_1.skip(1) =~= args_2);
    lemma_hole("    { uint32_t m = "@, "; ctx->r["@ + "{}"@ + ("] = m ? __builtin_clz(m) : 32; }"@), args_0);
    lemma_hole("; ctx->r["@, "] = m ? __builtin_clz(m) : 32; }"@, args_1);
    lemma_plain("] = m ? __builtin_clz(m) : 32; }"@);
    assert(text::fill("    { uint32_t m = {}; ctx->r[{}] = m ? __builtin_clz(m) : 32; }"@, seq![x0, x1]) + rest =~= "    { uint32_t m = "@ + (x0 + ("; ctx->r["@ + (x1 + ("] = m ? __builtin_clz(m) : 32; }"@ + (rest))))));
}

proof fn lemma_letters_9(rest: Seq<char>)
    ensures
        "] = m ? __builtin_clz(m) : 32; "@ + ("}\n"@ + (rest)) == "] = m ? __builtin_clz(m) : 32; }"@ + ("\n"@ + (rest)),
{
    reveal_strlit("] = m ? __builtin_clz(m) : 32; ");
    reveal_strlit("}\n");
    reveal_strlit("] = m ? __builtin_clz(m) : 32; }");
    reveal_strlit("\n");
    assert("] = m ? __builtin_clz(m) : 32; "@ + ("}\n"@ + (rest)) =~= "] = m ? __builtin_clz(m) : 32; }"@ + ("\n"@ + (rest)));
}

proof fn lemma_letters_10(rest: Seq<char>)
    ensures
        "    { "@ + ("uint32_t m = "@ + (rest)) == "    { uint32_t m = "@ + (rest),
{
    reveal_strlit("    { ");
    reveal_strlit("uint32_t m = ");
    reveal_strlit("    { uint32_t m = ");
    assert("    { "@ + ("uint32_t m = "@ + (rest)) =~= "    { uint32_t m = "@ + (rest));
}

pub open spec fn clz_line(x: Expression, rd: nat) -> Program {
    Program::Then(
        Layout::First,
        Statement::Open,
        Box::new(Program::Then(
        Layout::Middle,
        Statement::Declare(Type::U32, Declared::One(Name::M, x)),
        Box::new(Program::Then(
        Layout::Middle,
        Statement::Assign(Place::Register(rd), Expression::Either(Box::new(Expression::Local(Name::M)), Box::new(Expression::Call(Function::LeadingZeros, Box::new(Expression::Local(Name::M)))), Box::new(Expression::Int(32)))),
        Box::new(Program::Then(
        Layout::Last,
        Statement::Close,
        Box::new(Program::End),
    )),
    )),
    )),
    )
}

pub proof fn lemma_clz_line(x: Expression, rd: nat)
    requires
        x.grouped(),
    ensures
        clz_line(x, rd).text() == text::fill("    { uint32_t m = {}; ctx->r[{}] = m ? __builtin_clz(m) : 32; }"@, seq![x.text(), text::dec(rd)]).push('\n'),
        clz_line(x, rd).grouped(),
{
    reveal_with_fuel(Program::text, 5);
    reveal_with_fuel(Program::grouped, 5);
    lemma_statement_0(Seq::<char>::empty());
    lemma_statement_11(rd, "}\n"@ + (Seq::<char>::empty()));
    lemma_statement_12(x, "ctx->r["@ + (text::dec(rd) + ("] = m ? __builtin_clz(m) : 32; "@ + ("}\n"@ + (Seq::<char>::empty())))));
    lemma_statement_3("uint32_t m = "@ + (x.text() + ("; "@ + ("ctx->r["@ + (text::dec(rd) + ("] = m ? __builtin_clz(m) : 32; "@ + ("}\n"@ + (Seq::<char>::empty()))))))));
    lemma_text_10(x.text(), text::dec(rd), "\n"@ + Seq::<char>::empty());
    lemma_letters_9(Seq::<char>::empty());
    lemma_letters_4(text::dec(rd) + ("] = m ? __builtin_clz(m) : 32; }"@ + ("\n"@ + (Seq::<char>::empty()))));
    lemma_letters_10(x.text() + ("; ctx->r["@ + (text::dec(rd) + ("] = m ? __builtin_clz(m) : 32; }"@ + ("\n"@ + (Seq::<char>::empty()))))));
    reveal_strlit("\n");
    assert(text::fill("    { uint32_t m = {}; ctx->r[{}] = m ? __builtin_clz(m) : 32; }"@, seq![x.text(), text::dec(rd)]).push('\n') =~= text::fill("    { uint32_t m = {}; ctx->r[{}] = m ? __builtin_clz(m) : 32; }"@, seq![x.text(), text::dec(rd)]) + ("\n"@ + Seq::<char>::empty()));
    assert(clz_line(x, rd).text() == text::fill("    { uint32_t m = {}; ctx->r[{}] = m ? __builtin_clz(m) : 32; }"@, seq![x.text(), text::dec(rd)]).push('\n'));
}

} // verus!
