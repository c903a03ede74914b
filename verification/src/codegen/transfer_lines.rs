//! the lines that the C for ARM loads and stores is made of.

use crate::codegen::small_c;
use crate::codegen::small_c::{
    lemma_hole, lemma_plain, Declared, Expression, Field, Function, Layout, Name, Operator, Place,
    Program, Statement, Type,
};
use crate::text;
use vstd::prelude::*;

verus! {

proof fn lemma_statement_0(x: Expression, y: Expression, rest: Seq<char>)
    requires
        x.grouped(),
        y.grouped(),
        y.strength() >= 15,
    ensures
        Layout::Last.around(Statement::Declare(Type::U32, Declared::More(Name::Base, x, Box::new(Declared::One(Name::Oa, Expression::Two(Operator::Plus, Box::new(Expression::Local(Name::Base)), Box::new(y)))))).text()) + rest == "uint32_t base = "@ + (x.text() + (", oa = base + "@ + (y.text() + (";\n"@ + (rest))))),
        Statement::Declare(Type::U32, Declared::More(Name::Base, x, Box::new(Declared::One(Name::Oa, Expression::Two(Operator::Plus, Box::new(Expression::Local(Name::Base)), Box::new(y)))))).grouped(),
{
    reveal_strlit("\n");
    reveal_strlit(" ");
    reveal_strlit(" + ");
    reveal_strlit(" = ");
    reveal_strlit(", ");
    reveal_strlit(", oa = base + ");
    reveal_strlit(";");
    reveal_strlit(";\n");
    reveal_strlit("base");
    reveal_strlit("oa");
    reveal_strlit("uint32_t");
    reveal_strlit("uint32_t base = ");
    small_c::lemma_numbers();
    reveal(Statement::text);
    reveal(Statement::grouped);
    reveal_with_fuel(Declared::text, 3);
    reveal_with_fuel(Declared::grouped, 3);
    reveal_with_fuel(Expression::text, 3);
    reveal_with_fuel(Expression::grouped, 3);
    assert(Layout::Last.around(Statement::Declare(Type::U32, Declared::More(Name::Base, x, Box::new(Declared::One(Name::Oa, Expression::Two(Operator::Plus, Box::new(Expression::Local(Name::Base)), Box::new(y)))))).text()) + rest =~= "uint32_t base = "@ + (x.text() + (", oa = base + "@ + (y.text() + (";\n"@ + (rest))))));
}

proof fn lemma_statement_1(rest: Seq<char>)
    ensures
        Layout::First.around(Statement::Open.text()) + rest == "    { "@ + (rest),
        Statement::Open.grouped(),
{
    reveal_strlit(" ");
    reveal_strlit("    ");
    reveal_strlit("    { ");
    reveal_strlit("{");
    small_c::lemma_numbers();
    reveal(Statement::text);
    reveal(Statement::grouped);
    reveal_with_fuel(Expression::text, 2);
    reveal_with_fuel(Expression::grouped, 2);
    assert(Layout::First.around(Statement::Open.text()) + rest =~= "    { "@ + (rest));
}

proof fn lemma_text_0(x0: Seq<char>, x1: Seq<char>, x2: Seq<char>, rest: Seq<char>)
    ensures
        text::fill("    { uint32_t base = {}, oa = base {} {};"@, seq![x0, x1, x2]) + rest == "    { uint32_t base = "@ + (x0 + (", oa = base "@ + (x1 + (" "@ + (x2 + (";"@ + (rest))))))),
{
    reveal_strlit("    { uint32_t base = {}, oa = base {} {};");
    reveal_strlit("{}");
    reveal_strlit("    { uint32_t base = ");
    reveal_strlit(", oa = base ");
    reveal_strlit(" ");
    reveal_strlit(";");
    assert("    { uint32_t base = {}, oa = base {} {};"@ =~= "    { uint32_t base = "@ + "{}"@ + (", oa = base "@ + "{}"@ + (" "@ + "{}"@ + (";"@))));
    let args_0 = seq![x0, x1, x2];
    let args_1 = seq![x1, x2];
    let args_2 = seq![x2];
    let args_3 = Seq::<Seq<char>>::empty();
    assert(args_0.skip(1) =~= args_1);
    assert(args_1.skip(1) =~= args_2);
    assert(args_2.skip(1) =~= args_3);
    lemma_hole("    { uint32_t base = "@, ", oa = base "@ + "{}"@ + (" "@ + "{}"@ + (";"@)), args_0);
    lemma_hole(", oa = base "@, " "@ + "{}"@ + (";"@), args_1);
    lemma_hole(" "@, ";"@, args_2);
    lemma_plain(";"@);
    assert(text::fill("    { uint32_t base = {}, oa = base {} {};"@, seq![x0, x1, x2]) + rest =~= "    { uint32_t base = "@ + (x0 + (", oa = base "@ + (x1 + (" "@ + (x2 + (";"@ + (rest))))))));
}

proof fn lemma_letters_0(rest: Seq<char>)
    ensures
        ";\n"@ + (rest) == ";"@ + ("\n"@ + (rest)),
{
    reveal_strlit(";\n");
    reveal_strlit(";");
    reveal_strlit("\n");
    assert(";\n"@ + (rest) =~= ";"@ + ("\n"@ + (rest)));
}

proof fn lemma_letters_1(rest: Seq<char>)
    ensures
        ", oa = base + "@ + (rest) == ", oa = base "@ + ("+"@ + (" "@ + (rest))),
{
    reveal_strlit(", oa = base + ");
    reveal_strlit(", oa = base ");
    reveal_strlit("+");
    reveal_strlit(" ");
    assert(", oa = base + "@ + (rest) =~= ", oa = base "@ + ("+"@ + (" "@ + (rest))));
}

proof fn lemma_letters_2(rest: Seq<char>)
    ensures
        "    { "@ + ("uint32_t base = "@ + (rest)) == "    { uint32_t base = "@ + (rest),
{
    reveal_strlit("    { ");
    reveal_strlit("uint32_t base = ");
    reveal_strlit("    { uint32_t base = ");
    assert("    { "@ + ("uint32_t base = "@ + (rest)) =~= "    { uint32_t base = "@ + (rest));
}

pub open spec fn base_up_line(x: Expression, y: Expression) -> Program {
    Program::Then(
        Layout::First,
        Statement::Open,
        Box::new(Program::Then(
        Layout::Last,
        Statement::Declare(Type::U32, Declared::More(Name::Base, x, Box::new(Declared::One(Name::Oa, Expression::Two(Operator::Plus, Box::new(Expression::Local(Name::Base)), Box::new(y)))))),
        Box::new(Program::End),
    )),
    )
}

pub proof fn lemma_base_up_line(x: Expression, y: Expression)
    requires
        x.grouped(),
        y.grouped(),
        y.strength() >= 15,
    ensures
        base_up_line(x, y).text() == text::fill("    { uint32_t base = {}, oa = base {} {};"@, seq![x.text(), "+"@, y.text()]).push('\n'),
        base_up_line(x, y).grouped(),
{
    reveal_with_fuel(Program::text, 3);
    reveal_with_fuel(Program::grouped, 3);
    lemma_statement_0(x, y, Seq::<char>::empty());
    lemma_statement_1("uint32_t base = "@ + (x.text() + (", oa = base + "@ + (y.text() + (";\n"@ + (Seq::<char>::empty()))))));
    assert("+"@ == "+"@);
    lemma_text_0(x.text(), "+"@, y.text(), "\n"@ + Seq::<char>::empty());
    lemma_letters_0(Seq::<char>::empty());
    lemma_letters_1(y.text() + (";"@ + ("\n"@ + (Seq::<char>::empty()))));
    lemma_letters_2(x.text() + (", oa = base "@ + ("+"@ + (" "@ + (y.text() + (";"@ + ("\n"@ + (Seq::<char>::empty()))))))));
    reveal_strlit("\n");
    assert(text::fill("    { uint32_t base = {}, oa = base {} {};"@, seq![x.text(), "+"@, y.text()]).push('\n') =~= text::fill("    { uint32_t base = {}, oa = base {} {};"@, seq![x.text(), "+"@, y.text()]) + ("\n"@ + Seq::<char>::empty()));
    assert(base_up_line(x, y).text() == text::fill("    { uint32_t base = {}, oa = base {} {};"@, seq![x.text(), "+"@, y.text()]).push('\n'));
}

proof fn lemma_statement_2(x: Expression, y: Expression, rest: Seq<char>)
    requires
        x.grouped(),
        y.grouped(),
        y.strength() >= 15,
    ensures
        Layout::Last.around(Statement::Declare(Type::U32, Declared::More(Name::Base, x, Box::new(Declared::One(Name::Oa, Expression::Two(Operator::Minus, Box::new(Expression::Local(Name::Base)), Box::new(y)))))).text()) + rest == "uint32_t base = "@ + (x.text() + (", oa = base - "@ + (y.text() + (";\n"@ + (rest))))),
        Statement::Declare(Type::U32, Declared::More(Name::Base, x, Box::new(Declared::One(Name::Oa, Expression::Two(Operator::Minus, Box::new(Expression::Local(Name::Base)), Box::new(y)))))).grouped(),
{
    reveal_strlit("\n");
    reveal_strlit(" ");
    reveal_strlit(" - ");
    reveal_strlit(" = ");
    reveal_strlit(", ");
    reveal_strlit(", oa = base - ");
    reveal_strlit(";");
    reveal_strlit(";\n");
    reveal_strlit("base");
    reveal_strlit("oa");
    reveal_strlit("uint32_t");
    reveal_strlit("uint32_t base = ");
    small_c::lemma_numbers();
    reveal(Statement::text);
    reveal(Statement::grouped);
    reveal_with_fuel(Declared::text, 3);
    reveal_with_fuel(Declared::grouped, 3);
    reveal_with_fuel(Expression::text, 3);
    reveal_with_fuel(Expression::grouped, 3);
    assert(Layout::Last.around(Statement::Declare(Type::U32, Declared::More(Name::Base, x, Box::new(Declared::One(Name::Oa, Expression::Two(Operator::Minus, Box::new(Expression::Local(Name::Base)), Box::new(y)))))).text()) + rest =~= "uint32_t base = "@ + (x.text() + (", oa = base - "@ + (y.text() + (";\n"@ + (rest))))));
}

proof fn lemma_letters_3(rest: Seq<char>)
    ensures
        ", oa = base - "@ + (rest) == ", oa = base "@ + ("-"@ + (" "@ + (rest))),
{
    reveal_strlit(", oa = base - ");
    reveal_strlit(", oa = base ");
    reveal_strlit("-");
    reveal_strlit(" ");
    assert(", oa = base - "@ + (rest) =~= ", oa = base "@ + ("-"@ + (" "@ + (rest))));
}

pub open spec fn base_down_line(x: Expression, y: Expression) -> Program {
    Program::Then(
        Layout::First,
        Statement::Open,
        Box::new(Program::Then(
        Layout::Last,
        Statement::Declare(Type::U32, Declared::More(Name::Base, x, Box::new(Declared::One(Name::Oa, Expression::Two(Operator::Minus, Box::new(Expression::Local(Name::Base)), Box::new(y)))))),
        Box::new(Program::End),
    )),
    )
}

pub proof fn lemma_base_down_line(x: Expression, y: Expression)
    requires
        x.grouped(),
        y.grouped(),
        y.strength() >= 15,
    ensures
        base_down_line(x, y).text() == text::fill("    { uint32_t base = {}, oa = base {} {};"@, seq![x.text(), "-"@, y.text()]).push('\n'),
        base_down_line(x, y).grouped(),
{
    reveal_with_fuel(Program::text, 3);
    reveal_with_fuel(Program::grouped, 3);
    lemma_statement_2(x, y, Seq::<char>::empty());
    lemma_statement_1("uint32_t base = "@ + (x.text() + (", oa = base - "@ + (y.text() + (";\n"@ + (Seq::<char>::empty()))))));
    assert("-"@ == "-"@);
    lemma_text_0(x.text(), "-"@, y.text(), "\n"@ + Seq::<char>::empty());
    lemma_letters_0(Seq::<char>::empty());
    lemma_letters_3(y.text() + (";"@ + ("\n"@ + (Seq::<char>::empty()))));
    lemma_letters_2(x.text() + (", oa = base "@ + ("-"@ + (" "@ + (y.text() + (";"@ + ("\n"@ + (Seq::<char>::empty()))))))));
    reveal_strlit("\n");
    assert(text::fill("    { uint32_t base = {}, oa = base {} {};"@, seq![x.text(), "-"@, y.text()]).push('\n') =~= text::fill("    { uint32_t base = {}, oa = base {} {};"@, seq![x.text(), "-"@, y.text()]) + ("\n"@ + Seq::<char>::empty()));
    assert(base_down_line(x, y).text() == text::fill("    { uint32_t base = {}, oa = base {} {};"@, seq![x.text(), "-"@, y.text()]).push('\n'));
}

proof fn lemma_statement_3(x: Expression, rest: Seq<char>)
    requires
        x.grouped(),
    ensures
        Layout::Alone.around(Statement::Declare(Type::U32, Declared::One(Name::V, Expression::Load(8, Box::new(x)))).text()) + rest == "    uint32_t v = mem_read8(ctx, "@ + (x.text() + (");\n"@ + (rest))),
        Statement::Declare(Type::U32, Declared::One(Name::V, Expression::Load(8, Box::new(x)))).grouped(),
{
    reveal_strlit("\n");
    reveal_strlit(" ");
    reveal_strlit("    ");
    reveal_strlit("    uint32_t v = mem_read8(ctx, ");
    reveal_strlit(" = ");
    reveal_strlit("(ctx, ");
    reveal_strlit(")");
    reveal_strlit(");\n");
    reveal_strlit("8");
    reveal_strlit(";");
    reveal_strlit("mem_read");
    reveal_strlit("uint32_t");
    reveal_strlit("v");
    small_c::lemma_numbers();
    reveal(Statement::text);
    reveal(Statement::grouped);
    reveal_with_fuel(Declared::text, 2);
    reveal_with_fuel(Declared::grouped, 2);
    reveal_with_fuel(Expression::text, 2);
    reveal_with_fuel(Expression::grouped, 2);
    assert(Layout::Alone.around(Statement::Declare(Type::U32, Declared::One(Name::V, Expression::Load(8, Box::new(x)))).text()) + rest =~= "    uint32_t v = mem_read8(ctx, "@ + (x.text() + (");\n"@ + (rest))));
}

proof fn lemma_text_1(x0: Seq<char>, rest: Seq<char>)
    ensures
        text::fill("    uint32_t v = mem_read8(ctx, {});"@, seq![x0]) + rest == "    uint32_t v = mem_read8(ctx, "@ + (x0 + (");"@ + (rest))),
{
    reveal_strlit("    uint32_t v = mem_read8(ctx, {});");
    reveal_strlit("{}");
    reveal_strlit("    uint32_t v = mem_read8(ctx, ");
    reveal_strlit(");");
    assert("    uint32_t v = mem_read8(ctx, {});"@ =~= "    uint32_t v = mem_read8(ctx, "@ + "{}"@ + (");"@));
    let args_0 = seq![x0];
    let args_1 = Seq::<Seq<char>>::empty();
    assert(args_0.skip(1) =~= args_1);
    lemma_hole("    uint32_t v = mem_read8(ctx, "@, ");"@, args_0);
    lemma_plain(");"@);
    assert(text::fill("    uint32_t v = mem_read8(ctx, {});"@, seq![x0]) + rest =~= "    uint32_t v = mem_read8(ctx, "@ + (x0 + (");"@ + (rest))));
}

proof fn lemma_letters_4(rest: Seq<char>)
    ensures
        ");\n"@ + (rest) == ");"@ + ("\n"@ + (rest)),
{
    reveal_strlit(");\n");
    reveal_strlit(");");
    reveal_strlit("\n");
    assert(");\n"@ + (rest) =~= ");"@ + ("\n"@ + (rest)));
}

pub open spec fn read_8_line(x: Expression) -> Program {
    Program::Then(
        Layout::Alone,
        Statement::Declare(Type::U32, Declared::One(Name::V, Expression::Load(8, Box::new(x)))),
        Box::new(Program::End),
    )
}

pub proof fn lemma_read_8_line(x: Expression)
    requires
        x.grouped(),
    ensures
        read_8_line(x).text() == text::fill("    uint32_t v = mem_read8(ctx, {});"@, seq![x.text()]).push('\n'),
        read_8_line(x).grouped(),
{
    reveal_with_fuel(Program::text, 2);
    reveal_with_fuel(Program::grouped, 2);
    lemma_statement_3(x, Seq::<char>::empty());
    lemma_text_1(x.text(), "\n"@ + Seq::<char>::empty());
    lemma_letters_4(Seq::<char>::empty());
    reveal_strlit("\n");
    assert(text::fill("    uint32_t v = mem_read8(ctx, {});"@, seq![x.text()]).push('\n') =~= text::fill("    uint32_t v = mem_read8(ctx, {});"@, seq![x.text()]) + ("\n"@ + Seq::<char>::empty()));
    assert(read_8_line(x).text() == text::fill("    uint32_t v = mem_read8(ctx, {});"@, seq![x.text()]).push('\n'));
}

proof fn lemma_statement_4(x: Expression, rest: Seq<char>)
    requires
        x.grouped(),
    ensures
        Layout::Alone.around(Statement::Declare(Type::U32, Declared::One(Name::V, Expression::Load(32, Box::new(x)))).text()) + rest == "    uint32_t v = mem_read32(ctx, "@ + (x.text() + (");\n"@ + (rest))),
        Statement::Declare(Type::U32, Declared::One(Name::V, Expression::Load(32, Box::new(x)))).grouped(),
{
    reveal_strlit("\n");
    reveal_strlit(" ");
    reveal_strlit("    ");
    reveal_strlit("    uint32_t v = mem_read32(ctx, ");
    reveal_strlit(" = ");
    reveal_strlit("(ctx, ");
    reveal_strlit(")");
    reveal_strlit(");\n");
    reveal_strlit("32");
    reveal_strlit(";");
    reveal_strlit("mem_read");
    reveal_strlit("uint32_t");
    reveal_strlit("v");
    small_c::lemma_numbers();
    reveal(Statement::text);
    reveal(Statement::grouped);
    reveal_with_fuel(Declared::text, 2);
    reveal_with_fuel(Declared::grouped, 2);
    reveal_with_fuel(Expression::text, 2);
    reveal_with_fuel(Expression::grouped, 2);
    assert(Layout::Alone.around(Statement::Declare(Type::U32, Declared::One(Name::V, Expression::Load(32, Box::new(x)))).text()) + rest =~= "    uint32_t v = mem_read32(ctx, "@ + (x.text() + (");\n"@ + (rest))));
}

proof fn lemma_text_2(x0: Seq<char>, rest: Seq<char>)
    ensures
        text::fill("    uint32_t v = mem_read32(ctx, {});"@, seq![x0]) + rest == "    uint32_t v = mem_read32(ctx, "@ + (x0 + (");"@ + (rest))),
{
    reveal_strlit("    uint32_t v = mem_read32(ctx, {});");
    reveal_strlit("{}");
    reveal_strlit("    uint32_t v = mem_read32(ctx, ");
    reveal_strlit(");");
    assert("    uint32_t v = mem_read32(ctx, {});"@ =~= "    uint32_t v = mem_read32(ctx, "@ + "{}"@ + (");"@));
    let args_0 = seq![x0];
    let args_1 = Seq::<Seq<char>>::empty();
    assert(args_0.skip(1) =~= args_1);
    lemma_hole("    uint32_t v = mem_read32(ctx, "@, ");"@, args_0);
    lemma_plain(");"@);
    assert(text::fill("    uint32_t v = mem_read32(ctx, {});"@, seq![x0]) + rest =~= "    uint32_t v = mem_read32(ctx, "@ + (x0 + (");"@ + (rest))));
}

pub open spec fn read_32_line(x: Expression) -> Program {
    Program::Then(
        Layout::Alone,
        Statement::Declare(Type::U32, Declared::One(Name::V, Expression::Load(32, Box::new(x)))),
        Box::new(Program::End),
    )
}

pub proof fn lemma_read_32_line(x: Expression)
    requires
        x.grouped(),
    ensures
        read_32_line(x).text() == text::fill("    uint32_t v = mem_read32(ctx, {});"@, seq![x.text()]).push('\n'),
        read_32_line(x).grouped(),
{
    reveal_with_fuel(Program::text, 2);
    reveal_with_fuel(Program::grouped, 2);
    lemma_statement_4(x, Seq::<char>::empty());
    lemma_text_2(x.text(), "\n"@ + Seq::<char>::empty());
    lemma_letters_4(Seq::<char>::empty());
    reveal_strlit("\n");
    assert(text::fill("    uint32_t v = mem_read32(ctx, {});"@, seq![x.text()]).push('\n') =~= text::fill("    uint32_t v = mem_read32(ctx, {});"@, seq![x.text()]) + ("\n"@ + Seq::<char>::empty()));
    assert(read_32_line(x).text() == text::fill("    uint32_t v = mem_read32(ctx, {});"@, seq![x.text()]).push('\n'));
}

proof fn lemma_statement_5(rn: nat, rest: Seq<char>)
    ensures
        Layout::Alone.around(Statement::Assign(Place::Register(rn), Expression::Local(Name::Oa)).text()) + rest == "    ctx->r["@ + (text::dec(rn) + ("] = oa;\n"@ + (rest))),
        Statement::Assign(Place::Register(rn), Expression::Local(Name::Oa)).grouped(),
{
    reveal_strlit("\n");
    reveal_strlit("    ");
    reveal_strlit("    ctx->r[");
    reveal_strlit(" = ");
    reveal_strlit(";");
    reveal_strlit("]");
    reveal_strlit("] = oa;\n");
    reveal_strlit("ctx->r[");
    reveal_strlit("oa");
    small_c::lemma_numbers();
    reveal(Statement::text);
    reveal(Statement::grouped);
    reveal_with_fuel(Expression::text, 2);
    reveal_with_fuel(Expression::grouped, 2);
    assert(Layout::Alone.around(Statement::Assign(Place::Register(rn), Expression::Local(Name::Oa)).text()) + rest =~= "    ctx->r["@ + (text::dec(rn) + ("] = oa;\n"@ + (rest))));
}

proof fn lemma_text_3(x0: Seq<char>, rest: Seq<char>)
    ensures
        text::fill("    ctx->r[{}] = oa;"@, seq![x0]) + rest == "    ctx->r["@ + (x0 + ("] = oa;"@ + (rest))),
{
    reveal_strlit("    ctx->r[{}] = oa;");
    reveal_strlit("{}");
    reveal_strlit("    ctx->r[");
    reveal_strlit("] = oa;");
    assert("    ctx->r[{}] = oa;"@ =~= "    ctx->r["@ + "{}"@ + ("] = oa;"@));
    let args_0 = seq![x0];
    let args_1 = Seq::<Seq<char>>::empty();
    assert(args_0.skip(1) =~= args_1);
    lemma_hole("    ctx->r["@, "] = oa;"@, args_0);
    lemma_plain("] = oa;"@);
    assert(text::fill("    ctx->r[{}] = oa;"@, seq![x0]) + rest =~= "    ctx->r["@ + (x0 + ("] = oa;"@ + (rest))));
}

proof fn lemma_letters_5(rest: Seq<char>)
    ensures
        "] = oa;\n"@ + (rest) == "] = oa;"@ + ("\n"@ + (rest)),
{
    reveal_strlit("] = oa;\n");
    reveal_strlit("] = oa;");
    reveal_strlit("\n");
    assert("] = oa;\n"@ + (rest) =~= "] = oa;"@ + ("\n"@ + (rest)));
}

pub open spec fn back_line(rn: nat) -> Program {
    Program::Then(
        Layout::Alone,
        Statement::Assign(Place::Register(rn), Expression::Local(Name::Oa)),
        Box::new(Program::End),
    )
}

pub proof fn lemma_back_line(rn: nat)
    ensures
        back_line(rn).text() == text::fill("    ctx->r[{}] = oa;"@, seq![text::dec(rn)]).push('\n'),
        back_line(rn).grouped(),
{
    reveal_with_fuel(Program::text, 2);
    reveal_with_fuel(Program::grouped, 2);
    lemma_statement_5(rn, Seq::<char>::empty());
    lemma_text_3(text::dec(rn), "\n"@ + Seq::<char>::empty());
    lemma_letters_5(Seq::<char>::empty());
    reveal_strlit("\n");
    assert(text::fill("    ctx->r[{}] = oa;"@, seq![text::dec(rn)]).push('\n') =~= text::fill("    ctx->r[{}] = oa;"@, seq![text::dec(rn)]) + ("\n"@ + Seq::<char>::empty()));
    assert(back_line(rn).text() == text::fill("    ctx->r[{}] = oa;"@, seq![text::dec(rn)]).push('\n'));
}

proof fn lemma_statement_6(rest: Seq<char>)
    ensures
        Layout::Last.around(Statement::Close.text()) + rest == "}\n"@ + (rest),
        Statement::Close.grouped(),
{
    reveal_strlit("\n");
    reveal_strlit("}");
    reveal_strlit("}\n");
    small_c::lemma_numbers();
    reveal(Statement::text);
    reveal(Statement::grouped);
    reveal_with_fuel(Expression::text, 2);
    reveal_with_fuel(Expression::grouped, 2);
    assert(Layout::Last.around(Statement::Close.text()) + rest =~= "}\n"@ + (rest));
}

proof fn lemma_statement_7(rest: Seq<char>)
    ensures
        Layout::First.around(Statement::ReturnTo(Expression::Local(Name::V)).text()) + rest == "    RETURN_TO(v); "@ + (rest),
        Statement::ReturnTo(Expression::Local(Name::V)).grouped(),
{
    reveal_strlit(" ");
    reveal_strlit("    ");
    reveal_strlit("    RETURN_TO(v); ");
    reveal_strlit(");");
    reveal_strlit("RETURN_TO(");
    reveal_strlit("v");
    small_c::lemma_numbers();
    reveal(Statement::text);
    reveal(Statement::grouped);
    reveal_with_fuel(Expression::text, 2);
    reveal_with_fuel(Expression::grouped, 2);
    assert(Layout::First.around(Statement::ReturnTo(Expression::Local(Name::V)).text()) + rest =~= "    RETURN_TO(v); "@ + (rest));
}

proof fn lemma_text_4(rest: Seq<char>)
    ensures
        text::fill("    RETURN_TO(v); }"@, Seq::<Seq<char>>::empty()) + rest == "    RETURN_TO(v); }"@ + (rest),
{
    lemma_plain("    RETURN_TO(v); }"@);
    assert(text::fill("    RETURN_TO(v); }"@, Seq::<Seq<char>>::empty()) + rest =~= "    RETURN_TO(v); }"@ + (rest));
}

proof fn lemma_letters_6(rest: Seq<char>)
    ensures
        "    RETURN_TO(v); "@ + ("}\n"@ + (rest)) == "    RETURN_TO(v); }"@ + ("\n"@ + (rest)),
{
    reveal_strlit("    RETURN_TO(v); ");
    reveal_strlit("}\n");
    reveal_strlit("    RETURN_TO(v); }");
    reveal_strlit("\n");
    assert("    RETURN_TO(v); "@ + ("}\n"@ + (rest)) =~= "    RETURN_TO(v); }"@ + ("\n"@ + (rest)));
}

pub open spec fn return_line() -> Program {
    Program::Then(
        Layout::First,
        Statement::ReturnTo(Expression::Local(Name::V)),
        Box::new(Program::Then(
        Layout::Last,
        Statement::Close,
        Box::new(Program::End),
    )),
    )
}

pub proof fn lemma_return_line()
    ensures
        return_line().text() == text::fill("    RETURN_TO(v); }"@, Seq::<Seq<char>>::empty()).push('\n'),
        return_line().grouped(),
{
    reveal_with_fuel(Program::text, 3);
    reveal_with_fuel(Program::grouped, 3);
    lemma_statement_6(Seq::<char>::empty());
    lemma_statement_7("}\n"@ + (Seq::<char>::empty()));
    lemma_text_4("\n"@ + Seq::<char>::empty());
    lemma_letters_6(Seq::<char>::empty());
    reveal_strlit("\n");
    assert(text::fill("    RETURN_TO(v); }"@, Seq::<Seq<char>>::empty()).push('\n') =~= text::fill("    RETURN_TO(v); }"@, Seq::<Seq<char>>::empty()) + ("\n"@ + Seq::<char>::empty()));
    assert(return_line().text() == text::fill("    RETURN_TO(v); }"@, Seq::<Seq<char>>::empty()).push('\n'));
}

proof fn lemma_statement_8(rest: Seq<char>)
    ensures
        Layout::First.around(Statement::JumpTo(Expression::Local(Name::V)).text()) + rest == "    JUMP_TO(v); "@ + (rest),
        Statement::JumpTo(Expression::Local(Name::V)).grouped(),
{
    reveal_strlit(" ");
    reveal_strlit("    ");
    reveal_strlit("    JUMP_TO(v); ");
    reveal_strlit(");");
    reveal_strlit("JUMP_TO(");
    reveal_strlit("v");
    small_c::lemma_numbers();
    reveal(Statement::text);
    reveal(Statement::grouped);
    reveal_with_fuel(Expression::text, 2);
    reveal_with_fuel(Expression::grouped, 2);
    assert(Layout::First.around(Statement::JumpTo(Expression::Local(Name::V)).text()) + rest =~= "    JUMP_TO(v); "@ + (rest));
}

proof fn lemma_text_5(rest: Seq<char>)
    ensures
        text::fill("    JUMP_TO(v); }"@, Seq::<Seq<char>>::empty()) + rest == "    JUMP_TO(v); }"@ + (rest),
{
    lemma_plain("    JUMP_TO(v); }"@);
    assert(text::fill("    JUMP_TO(v); }"@, Seq::<Seq<char>>::empty()) + rest =~= "    JUMP_TO(v); }"@ + (rest));
}

proof fn lemma_letters_7(rest: Seq<char>)
    ensures
        "    JUMP_TO(v); "@ + ("}\n"@ + (rest)) == "    JUMP_TO(v); }"@ + ("\n"@ + (rest)),
{
    reveal_strlit("    JUMP_TO(v); ");
    reveal_strlit("}\n");
    reveal_strlit("    JUMP_TO(v); }");
    reveal_strlit("\n");
    assert("    JUMP_TO(v); "@ + ("}\n"@ + (rest)) =~= "    JUMP_TO(v); }"@ + ("\n"@ + (rest)));
}

pub open spec fn jump_line() -> Program {
    Program::Then(
        Layout::First,
        Statement::JumpTo(Expression::Local(Name::V)),
        Box::new(Program::Then(
        Layout::Last,
        Statement::Close,
        Box::new(Program::End),
    )),
    )
}

pub proof fn lemma_jump_line()
    ensures
        jump_line().text() == text::fill("    JUMP_TO(v); }"@, Seq::<Seq<char>>::empty()).push('\n'),
        jump_line().grouped(),
{
    reveal_with_fuel(Program::text, 3);
    reveal_with_fuel(Program::grouped, 3);
    lemma_statement_6(Seq::<char>::empty());
    lemma_statement_8("}\n"@ + (Seq::<char>::empty()));
    lemma_text_5("\n"@ + Seq::<char>::empty());
    lemma_letters_7(Seq::<char>::empty());
    reveal_strlit("\n");
    assert(text::fill("    JUMP_TO(v); }"@, Seq::<Seq<char>>::empty()).push('\n') =~= text::fill("    JUMP_TO(v); }"@, Seq::<Seq<char>>::empty()) + ("\n"@ + Seq::<char>::empty()));
    assert(jump_line().text() == text::fill("    JUMP_TO(v); }"@, Seq::<Seq<char>>::empty()).push('\n'));
}

proof fn lemma_statement_9(rd: nat, rest: Seq<char>)
    ensures
        Layout::First.around(Statement::Assign(Place::Register(rd), Expression::Local(Name::V)).text()) + rest == "    ctx->r["@ + (text::dec(rd) + ("] = v; "@ + (rest))),
        Statement::Assign(Place::Register(rd), Expression::Local(Name::V)).grouped(),
{
    reveal_strlit(" ");
    reveal_strlit("    ");
    reveal_strlit("    ctx->r[");
    reveal_strlit(" = ");
    reveal_strlit(";");
    reveal_strlit("]");
    reveal_strlit("] = v; ");
    reveal_strlit("ctx->r[");
    reveal_strlit("v");
    small_c::lemma_numbers();
    reveal(Statement::text);
    reveal(Statement::grouped);
    reveal_with_fuel(Expression::text, 2);
    reveal_with_fuel(Expression::grouped, 2);
    assert(Layout::First.around(Statement::Assign(Place::Register(rd), Expression::Local(Name::V)).text()) + rest =~= "    ctx->r["@ + (text::dec(rd) + ("] = v; "@ + (rest))));
}

proof fn lemma_text_6(x0: Seq<char>, rest: Seq<char>)
    ensures
        text::fill("    ctx->r[{}] = v; }"@, seq![x0]) + rest == "    ctx->r["@ + (x0 + ("] = v; }"@ + (rest))),
{
    reveal_strlit("    ctx->r[{}] = v; }");
    reveal_strlit("{}");
    reveal_strlit("    ctx->r[");
    reveal_strlit("] = v; }");
    assert("    ctx->r[{}] = v; }"@ =~= "    ctx->r["@ + "{}"@ + ("] = v; }"@));
    let args_0 = seq![x0];
    let args_1 = Seq::<Seq<char>>::empty();
    assert(args_0.skip(1) =~= args_1);
    lemma_hole("    ctx->r["@, "] = v; }"@, args_0);
    lemma_plain("] = v; }"@);
    assert(text::fill("    ctx->r[{}] = v; }"@, seq![x0]) + rest =~= "    ctx->r["@ + (x0 + ("] = v; }"@ + (rest))));
}

proof fn lemma_letters_8(rest: Seq<char>)
    ensures
        "] = v; "@ + ("}\n"@ + (rest)) == "] = v; }"@ + ("\n"@ + (rest)),
{
    reveal_strlit("] = v; ");
    reveal_strlit("}\n");
    reveal_strlit("] = v; }");
    reveal_strlit("\n");
    assert("] = v; "@ + ("}\n"@ + (rest)) =~= "] = v; }"@ + ("\n"@ + (rest)));
}

pub open spec fn result_line(rd: nat) -> Program {
    Program::Then(
        Layout::First,
        Statement::Assign(Place::Register(rd), Expression::Local(Name::V)),
        Box::new(Program::Then(
        Layout::Last,
        Statement::Close,
        Box::new(Program::End),
    )),
    )
}

pub proof fn lemma_result_line(rd: nat)
    ensures
        result_line(rd).text() == text::fill("    ctx->r[{}] = v; }"@, seq![text::dec(rd)]).push('\n'),
        result_line(rd).grouped(),
{
    reveal_with_fuel(Program::text, 3);
    reveal_with_fuel(Program::grouped, 3);
    lemma_statement_6(Seq::<char>::empty());
    lemma_statement_9(rd, "}\n"@ + (Seq::<char>::empty()));
    lemma_text_6(text::dec(rd), "\n"@ + Seq::<char>::empty());
    lemma_letters_8(Seq::<char>::empty());
    reveal_strlit("\n");
    assert(text::fill("    ctx->r[{}] = v; }"@, seq![text::dec(rd)]).push('\n') =~= text::fill("    ctx->r[{}] = v; }"@, seq![text::dec(rd)]) + ("\n"@ + Seq::<char>::empty()));
    assert(result_line(rd).text() == text::fill("    ctx->r[{}] = v; }"@, seq![text::dec(rd)]).push('\n'));
}

proof fn lemma_statement_10(x: Expression, y: Expression, rest: Seq<char>)
    requires
        x.grouped(),
        y.grouped(),
        y.strength() >= 15,
    ensures
        Layout::Alone.around(Statement::Store(8, x, Expression::Cast(Type::U8, Box::new(y))).text()) + rest == "    mem_write8(ctx, "@ + (x.text() + (", (uint8_t)"@ + (y.text() + (");\n"@ + (rest))))),
        Statement::Store(8, x, Expression::Cast(Type::U8, Box::new(y))).grouped(),
{
    reveal_strlit("\n");
    reveal_strlit("    ");
    reveal_strlit("    mem_write8(ctx, ");
    reveal_strlit("(");
    reveal_strlit("(ctx, ");
    reveal_strlit(")");
    reveal_strlit(");");
    reveal_strlit(");\n");
    reveal_strlit(", ");
    reveal_strlit(", (uint8_t)");
    reveal_strlit("8");
    reveal_strlit("mem_write");
    reveal_strlit("uint8_t");
    small_c::lemma_numbers();
    reveal(Statement::text);
    reveal(Statement::grouped);
    reveal_with_fuel(Expression::text, 2);
    reveal_with_fuel(Expression::grouped, 2);
    assert(Layout::Alone.around(Statement::Store(8, x, Expression::Cast(Type::U8, Box::new(y))).text()) + rest =~= "    mem_write8(ctx, "@ + (x.text() + (", (uint8_t)"@ + (y.text() + (");\n"@ + (rest))))));
}

proof fn lemma_text_7(x0: Seq<char>, x1: Seq<char>, rest: Seq<char>)
    ensures
        text::fill("    mem_write8(ctx, {}, (uint8_t){});"@, seq![x0, x1]) + rest == "    mem_write8(ctx, "@ + (x0 + (", (uint8_t)"@ + (x1 + (");"@ + (rest))))),
{
    reveal_strlit("    mem_write8(ctx, {}, (uint8_t){});");
    reveal_strlit("{}");
    reveal_strlit("    mem_write8(ctx, ");
    reveal_strlit(", (uint8_t)");
    reveal_strlit(");");
    assert("    mem_write8(ctx, {}, (uint8_t){});"@ =~= "    mem_write8(ctx, "@ + "{}"@ + (", (uint8_t)"@ + "{}"@ + (");"@)));
    let args_0 = seq![x0, x1];
    let args_1 = seq![x1];
    let args_2 = Seq::<Seq<char>>::empty();
    assert(args_0.skip(1) =~= args_1);
    assert(args_1.skip(1) =~= args_2);
    lemma_hole("    mem_write8(ctx, "@, ", (uint8_t)"@ + "{}"@ + (");"@), args_0);
    lemma_hole(", (uint8_t)"@, ");"@, args_1);
    lemma_plain(");"@);
    assert(text::fill("    mem_write8(ctx, {}, (uint8_t){});"@, seq![x0, x1]) + rest =~= "    mem_write8(ctx, "@ + (x0 + (", (uint8_t)"@ + (x1 + (");"@ + (rest))))));
}

pub open spec fn write_8_line(x: Expression, y: Expression) -> Program {
    Program::Then(
        Layout::Alone,
        Statement::Store(8, x, Expression::Cast(Type::U8, Box::new(y))),
        Box::new(Program::End),
    )
}

pub proof fn lemma_write_8_line(x: Expression, y: Expression)
    requires
        x.grouped(),
        y.grouped(),
        y.strength() >= 15,
    ensures
        write_8_line(x, y).text() == text::fill("    mem_write8(ctx, {}, (uint8_t){});"@, seq![x.text(), y.text()]).push('\n'),
        write_8_line(x, y).grouped(),
{
    reveal_with_fuel(Program::text, 2);
    reveal_with_fuel(Program::grouped, 2);
    lemma_statement_10(x, y, Seq::<char>::empty());
    lemma_text_7(x.text(), y.text(), "\n"@ + Seq::<char>::empty());
    lemma_letters_4(Seq::<char>::empty());
    reveal_strlit("\n");
    assert(text::fill("    mem_write8(ctx, {}, (uint8_t){});"@, seq![x.text(), y.text()]).push('\n') =~= text::fill("    mem_write8(ctx, {}, (uint8_t){});"@, seq![x.text(), y.text()]) + ("\n"@ + Seq::<char>::empty()));
    assert(write_8_line(x, y).text() == text::fill("    mem_write8(ctx, {}, (uint8_t){});"@, seq![x.text(), y.text()]).push('\n'));
}

proof fn lemma_statement_11(x: Expression, y: Expression, rest: Seq<char>)
    requires
        x.grouped(),
        y.grouped(),
    ensures
        Layout::Alone.around(Statement::Store(32, x, y).text()) + rest == "    mem_write32(ctx, "@ + (x.text() + (", "@ + (y.text() + (");\n"@ + (rest))))),
        Statement::Store(32, x, y).grouped(),
{
    reveal_strlit("\n");
    reveal_strlit("    ");
    reveal_strlit("    mem_write32(ctx, ");
    reveal_strlit("(ctx, ");
    reveal_strlit(");");
    reveal_strlit(");\n");
    reveal_strlit(", ");
    reveal_strlit("32");
    reveal_strlit("mem_write");
    small_c::lemma_numbers();
    reveal(Statement::text);
    reveal(Statement::grouped);
    assert(Layout::Alone.around(Statement::Store(32, x, y).text()) + rest =~= "    mem_write32(ctx, "@ + (x.text() + (", "@ + (y.text() + (");\n"@ + (rest))))));
}

proof fn lemma_text_8(x0: Seq<char>, x1: Seq<char>, rest: Seq<char>)
    ensures
        text::fill("    mem_write32(ctx, {}, {});"@, seq![x0, x1]) + rest == "    mem_write32(ctx, "@ + (x0 + (", "@ + (x1 + (");"@ + (rest))))),
{
    reveal_strlit("    mem_write32(ctx, {}, {});");
    reveal_strlit("{}");
    reveal_strlit("    mem_write32(ctx, ");
    reveal_strlit(", ");
    reveal_strlit(");");
    assert("    mem_write32(ctx, {}, {});"@ =~= "    mem_write32(ctx, "@ + "{}"@ + (", "@ + "{}"@ + (");"@)));
    let args_0 = seq![x0, x1];
    let args_1 = seq![x1];
    let args_2 = Seq::<Seq<char>>::empty();
    assert(args_0.skip(1) =~= args_1);
    assert(args_1.skip(1) =~= args_2);
    lemma_hole("    mem_write32(ctx, "@, ", "@ + "{}"@ + (");"@), args_0);
    lemma_hole(", "@, ");"@, args_1);
    lemma_plain(");"@);
    assert(text::fill("    mem_write32(ctx, {}, {});"@, seq![x0, x1]) + rest =~= "    mem_write32(ctx, "@ + (x0 + (", "@ + (x1 + (");"@ + (rest))))));
}

pub open spec fn write_32_line(x: Expression, y: Expression) -> Program {
    Program::Then(
        Layout::Alone,
        Statement::Store(32, x, y),
        Box::new(Program::End),
    )
}

pub proof fn lemma_write_32_line(x: Expression, y: Expression)
    requires
        x.grouped(),
        y.grouped(),
    ensures
        write_32_line(x, y).text() == text::fill("    mem_write32(ctx, {}, {});"@, seq![x.text(), y.text()]).push('\n'),
        write_32_line(x, y).grouped(),
{
    reveal_with_fuel(Program::text, 2);
    reveal_with_fuel(Program::grouped, 2);
    lemma_statement_11(x, y, Seq::<char>::empty());
    lemma_text_8(x.text(), y.text(), "\n"@ + Seq::<char>::empty());
    lemma_letters_4(Seq::<char>::empty());
    reveal_strlit("\n");
    assert(text::fill("    mem_write32(ctx, {}, {});"@, seq![x.text(), y.text()]).push('\n') =~= text::fill("    mem_write32(ctx, {}, {});"@, seq![x.text(), y.text()]) + ("\n"@ + Seq::<char>::empty()));
    assert(write_32_line(x, y).text() == text::fill("    mem_write32(ctx, {}, {});"@, seq![x.text(), y.text()]).push('\n'));
}

proof fn lemma_statement_12(rd: nat, rest: Seq<char>)
    ensures
        Layout::Middle.around(Statement::Assign(Place::Register(rd), Expression::Local(Name::V)).text()) + rest == "ctx->r["@ + (text::dec(rd) + ("] = v; "@ + (rest))),
        Statement::Assign(Place::Register(rd), Expression::Local(Name::V)).grouped(),
{
    reveal_strlit(" ");
    reveal_strlit(" = ");
    reveal_strlit(";");
    reveal_strlit("]");
    reveal_strlit("] = v; ");
    reveal_strlit("ctx->r[");
    reveal_strlit("v");
    small_c::lemma_numbers();
    reveal(Statement::text);
    reveal(Statement::grouped);
    reveal_with_fuel(Expression::text, 2);
    reveal_with_fuel(Expression::grouped, 2);
    assert(Layout::Middle.around(Statement::Assign(Place::Register(rd), Expression::Local(Name::V)).text()) + rest =~= "ctx->r["@ + (text::dec(rd) + ("] = v; "@ + (rest))));
}

proof fn lemma_statement_13(rn: nat, rest: Seq<char>)
    ensures
        Layout::Middle.around(Statement::Assign(Place::Register(rn), Expression::Local(Name::Oa)).text()) + rest == "ctx->r["@ + (text::dec(rn) + ("] = oa; "@ + (rest))),
        Statement::Assign(Place::Register(rn), Expression::Local(Name::Oa)).grouped(),
{
    reveal_strlit(" ");
    reveal_strlit(" = ");
    reveal_strlit(";");
    reveal_strlit("]");
    reveal_strlit("] = oa; ");
    reveal_strlit("ctx->r[");
    reveal_strlit("oa");
    small_c::lemma_numbers();
    reveal(Statement::text);
    reveal(Statement::grouped);
    reveal_with_fuel(Expression::text, 2);
    reveal_with_fuel(Expression::grouped, 2);
    assert(Layout::Middle.around(Statement::Assign(Place::Register(rn), Expression::Local(Name::Oa)).text()) + rest =~= "ctx->r["@ + (text::dec(rn) + ("] = oa; "@ + (rest))));
}

proof fn lemma_statement_14(x: Expression, rest: Seq<char>)
    requires
        x.grouped(),
    ensures
        Layout::First.around(Statement::Declare(Type::U32, Declared::One(Name::V, Expression::Load(16, Box::new(x)))).text()) + rest == "    uint32_t v = mem_read16(ctx, "@ + (x.text() + ("); "@ + (rest))),
        Statement::Declare(Type::U32, Declared::One(Name::V, Expression::Load(16, Box::new(x)))).grouped(),
{
    reveal_strlit(" ");
    reveal_strlit("    ");
    reveal_strlit("    uint32_t v = mem_read16(ctx, ");
    reveal_strlit(" = ");
    reveal_strlit("(ctx, ");
    reveal_strlit(")");
    reveal_strlit("); ");
    reveal_strlit("16");
    reveal_strlit(";");
    reveal_strlit("mem_read");
    reveal_strlit("uint32_t");
    reveal_strlit("v");
    small_c::lemma_numbers();
    reveal(Statement::text);
    reveal(Statement::grouped);
    reveal_with_fuel(Declared::text, 2);
    reveal_with_fuel(Declared::grouped, 2);
    reveal_with_fuel(Expression::text, 2);
    reveal_with_fuel(Expression::grouped, 2);
    assert(Layout::First.around(Statement::Declare(Type::U32, Declared::One(Name::V, Expression::Load(16, Box::new(x)))).text()) + rest =~= "    uint32_t v = mem_read16(ctx, "@ + (x.text() + ("); "@ + (rest))));
}

proof fn lemma_text_9(x0: Seq<char>, x1: Seq<char>, x2: Seq<char>, rest: Seq<char>)
    ensures
        text::fill("    uint32_t v = mem_read16(ctx, {});{} ctx->r[{}] = v; }"@, seq![x0, x1, x2]) + rest == "    uint32_t v = mem_read16(ctx, "@ + (x0 + (");"@ + (x1 + (" ctx->r["@ + (x2 + ("] = v; }"@ + (rest))))))),
{
    reveal_strlit("    uint32_t v = mem_read16(ctx, {});{} ctx->r[{}] = v; }");
    reveal_strlit("{}");
    reveal_strlit("    uint32_t v = mem_read16(ctx, ");
    reveal_strlit(");");
    reveal_strlit(" ctx->r[");
    reveal_strlit("] = v; }");
    assert("    uint32_t v = mem_read16(ctx, {});{} ctx->r[{}] = v; }"@ =~= "    uint32_t v = mem_read16(ctx, "@ + "{}"@ + (");"@ + "{}"@ + (" ctx->r["@ + "{}"@ + ("] = v; }"@))));
    let args_0 = seq![x0, x1, x2];
    let args_1 = seq![x1, x2];
    let args_2 = seq![x2];
    let args_3 = Seq::<Seq<char>>::empty();
    assert(args_0.skip(1) =~= args_1);
    assert(args_1.skip(1) =~= args_2);
    assert(args_2.skip(1) =~= args_3);
    lemma_hole("    uint32_t v = mem_read16(ctx, "@, ");"@ + "{}"@ + (" ctx->r["@ + "{}"@ + ("] = v; }"@)), args_0);
    lemma_hole(");"@, " ctx->r["@ + "{}"@ + ("] = v; }"@), args_1);
    lemma_hole(" ctx->r["@, "] = v; }"@, args_2);
    lemma_plain("] = v; }"@);
    assert(text::fill("    uint32_t v = mem_read16(ctx, {});{} ctx->r[{}] = v; }"@, seq![x0, x1, x2]) + rest =~= "    uint32_t v = mem_read16(ctx, "@ + (x0 + (");"@ + (x1 + (" ctx->r["@ + (x2 + ("] = v; }"@ + (rest))))))));
}

proof fn lemma_text_10(x0: Seq<char>, rest: Seq<char>)
    ensures
        text::fill(" ctx->r[{}] = oa;"@, seq![x0]) + rest == " ctx->r["@ + (x0 + ("] = oa;"@ + (rest))),
{
    reveal_strlit(" ctx->r[{}] = oa;");
    reveal_strlit("{}");
    reveal_strlit(" ctx->r[");
    reveal_strlit("] = oa;");
    assert(" ctx->r[{}] = oa;"@ =~= " ctx->r["@ + "{}"@ + ("] = oa;"@));
    let args_0 = seq![x0];
    let args_1 = Seq::<Seq<char>>::empty();
    assert(args_0.skip(1) =~= args_1);
    lemma_hole(" ctx->r["@, "] = oa;"@, args_0);
    lemma_plain("] = oa;"@);
    assert(text::fill(" ctx->r[{}] = oa;"@, seq![x0]) + rest =~= " ctx->r["@ + (x0 + ("] = oa;"@ + (rest))));
}

proof fn lemma_letters_9(rest: Seq<char>)
    ensures
        "] = oa; "@ + ("ctx->r["@ + (rest)) == "] = oa;"@ + (" ctx->r["@ + (rest)),
{
    reveal_strlit("] = oa; ");
    reveal_strlit("ctx->r[");
    reveal_strlit("] = oa;");
    reveal_strlit(" ctx->r[");
    assert("] = oa; "@ + ("ctx->r["@ + (rest)) =~= "] = oa;"@ + (" ctx->r["@ + (rest)));
}

proof fn lemma_letters_10(rest: Seq<char>)
    ensures
        "); "@ + ("ctx->r["@ + (rest)) == ");"@ + (" ctx->r["@ + (rest)),
{
    reveal_strlit("); ");
    reveal_strlit("ctx->r[");
    reveal_strlit(");");
    reveal_strlit(" ctx->r[");
    assert("); "@ + ("ctx->r["@ + (rest)) =~= ");"@ + (" ctx->r["@ + (rest)));
}

pub open spec fn read_half_back_line(x: Expression, rn: nat, rd: nat) -> Program {
    Program::Then(
        Layout::First,
        Statement::Declare(Type::U32, Declared::One(Name::V, Expression::Load(16, Box::new(x)))),
        Box::new(Program::Then(
        Layout::Middle,
        Statement::Assign(Place::Register(rn), Expression::Local(Name::Oa)),
        Box::new(Program::Then(
        Layout::Middle,
        Statement::Assign(Place::Register(rd), Expression::Local(Name::V)),
        Box::new(Program::Then(
        Layout::Last,
        Statement::Close,
        Box::new(Program::End),
    )),
    )),
    )),
    )
}

pub proof fn lemma_read_half_back_line(x: Expression, rn: nat, rd: nat)
    requires
        x.grouped(),
    ensures
        read_half_back_line(x, rn, rd).text() == text::fill("    uint32_t v = mem_read16(ctx, {});{} ctx->r[{}] = v; }"@, seq![x.text(), text::fill(" ctx->r[{}] = oa;"@, seq![text::dec(rn)]), text::dec(rd)]).push('\n'),
        read_half_back_line(x, rn, rd).grouped(),
{
    reveal_with_fuel(Program::text, 5);
    reveal_with_fuel(Program::grouped, 5);
    lemma_statement_6(Seq::<char>::empty());
    lemma_statement_12(rd, "}\n"@ + (Seq::<char>::empty()));
    lemma_statement_13(rn, "ctx->r["@ + (text::dec(rd) + ("] = v; "@ + ("}\n"@ + (Seq::<char>::empty())))));
    lemma_statement_14(x, "ctx->r["@ + (text::dec(rn) + ("] = oa; "@ + ("ctx->r["@ + (text::dec(rd) + ("] = v; "@ + ("}\n"@ + (Seq::<char>::empty()))))))));
    lemma_text_10(text::dec(rn), " ctx->r["@ + (text::dec(rd) + ("] = v; }"@ + ("\n"@ + Seq::<char>::empty()))));
    lemma_text_9(x.text(), text::fill(" ctx->r[{}] = oa;"@, seq![text::dec(rn)]), text::dec(rd), "\n"@ + Seq::<char>::empty());
    lemma_letters_8(Seq::<char>::empty());
    lemma_letters_9(text::dec(rd) + ("] = v; }"@ + ("\n"@ + (Seq::<char>::empty()))));
    lemma_letters_10(text::dec(rn) + ("] = oa;"@ + (" ctx->r["@ + (text::dec(rd) + ("] = v; }"@ + ("\n"@ + (Seq::<char>::empty())))))));
    reveal_strlit("\n");
    assert(text::fill("    uint32_t v = mem_read16(ctx, {});{} ctx->r[{}] = v; }"@, seq![x.text(), text::fill(" ctx->r[{}] = oa;"@, seq![text::dec(rn)]), text::dec(rd)]).push('\n') =~= text::fill("    uint32_t v = mem_read16(ctx, {});{} ctx->r[{}] = v; }"@, seq![x.text(), text::fill(" ctx->r[{}] = oa;"@, seq![text::dec(rn)]), text::dec(rd)]) + ("\n"@ + Seq::<char>::empty()));
    assert(read_half_back_line(x, rn, rd).text() == text::fill("    uint32_t v = mem_read16(ctx, {});{} ctx->r[{}] = v; }"@, seq![x.text(), text::fill(" ctx->r[{}] = oa;"@, seq![text::dec(rn)]), text::dec(rd)]).push('\n'));
}

#[verifier::rlimit(60)]
proof fn lemma_statement_15(x: Expression, rest: Seq<char>)
    requires
        x.grouped(),
    ensures
        Layout::First.around(Statement::Declare(Type::U32, Declared::One(Name::V, Expression::Cast(Type::U32, Box::new(Expression::Cast(Type::I32, Box::new(Expression::Cast(Type::I8, Box::new(Expression::Load(8, Box::new(x)))))))))).text()) + rest == "    uint32_t v = (uint32_t)(int32_t)(int8_t)mem_read8(ctx, "@ + (x.text() + ("); "@ + (rest))),
        Statement::Declare(Type::U32, Declared::One(Name::V, Expression::Cast(Type::U32, Box::new(Expression::Cast(Type::I32, Box::new(Expression::Cast(Type::I8, Box::new(Expression::Load(8, Box::new(x)))))))))).grouped(),
{
    reveal_strlit(" ");
    reveal_strlit("    ");
    reveal_strlit("    uint32_t v = (uint32_t)(int32_t)(int8_t)mem_read8(ctx, ");
    reveal_strlit(" = ");
    reveal_strlit("(");
    reveal_strlit("(ctx, ");
    reveal_strlit(")");
    reveal_strlit("); ");
    reveal_strlit("8");
    reveal_strlit(";");
    reveal_strlit("int32_t");
    reveal_strlit("int8_t");
    reveal_strlit("mem_read");
    reveal_strlit("uint32_t");
    reveal_strlit("v");
    small_c::lemma_numbers();
    reveal(Statement::text);
    reveal(Statement::grouped);
    reveal_with_fuel(Declared::text, 2);
    reveal_with_fuel(Declared::grouped, 2);
    reveal_with_fuel(Expression::text, 5);
    reveal_with_fuel(Expression::grouped, 5);
    assert(Layout::First.around(Statement::Declare(Type::U32, Declared::One(Name::V, Expression::Cast(Type::U32, Box::new(Expression::Cast(Type::I32, Box::new(Expression::Cast(Type::I8, Box::new(Expression::Load(8, Box::new(x)))))))))).text()) + rest =~= "    uint32_t v = (uint32_t)(int32_t)(int8_t)mem_read8(ctx, "@ + (x.text() + ("); "@ + (rest))));
}

proof fn lemma_text_11(x0: Seq<char>, x1: Seq<char>, x2: Seq<char>, rest: Seq<char>)
    ensures
        text::fill("    uint32_t v = (uint32_t)(int32_t)(int8_t)mem_read8(ctx, {});{} ctx->r[{}] = v; }"@, seq![x0, x1, x2]) + rest == "    uint32_t v = (uint32_t)(int32_t)(int8_t)mem_read8(ctx, "@ + (x0 + (");"@ + (x1 + (" ctx->r["@ + (x2 + ("] = v; }"@ + (rest))))))),
{
    reveal_strlit("    uint32_t v = (uint32_t)(int32_t)(int8_t)mem_read8(ctx, {});{} ctx->r[{}] = v; }");
    reveal_strlit("{}");
    reveal_strlit("    uint32_t v = (uint32_t)(int32_t)(int8_t)mem_read8(ctx, ");
    reveal_strlit(");");
    reveal_strlit(" ctx->r[");
    reveal_strlit("] = v; }");
    assert("    uint32_t v = (uint32_t)(int32_t)(int8_t)mem_read8(ctx, {});{} ctx->r[{}] = v; }"@ =~= "    uint32_t v = (uint32_t)(int32_t)(int8_t)mem_read8(ctx, "@ + "{}"@ + (");"@ + "{}"@ + (" ctx->r["@ + "{}"@ + ("] = v; }"@))));
    let args_0 = seq![x0, x1, x2];
    let args_1 = seq![x1, x2];
    let args_2 = seq![x2];
    let args_3 = Seq::<Seq<char>>::empty();
    assert(args_0.skip(1) =~= args_1);
    assert(args_1.skip(1) =~= args_2);
    assert(args_2.skip(1) =~= args_3);
    lemma_hole("    uint32_t v = (uint32_t)(int32_t)(int8_t)mem_read8(ctx, "@, ");"@ + "{}"@ + (" ctx->r["@ + "{}"@ + ("] = v; }"@)), args_0);
    lemma_hole(");"@, " ctx->r["@ + "{}"@ + ("] = v; }"@), args_1);
    lemma_hole(" ctx->r["@, "] = v; }"@, args_2);
    lemma_plain("] = v; }"@);
    assert(text::fill("    uint32_t v = (uint32_t)(int32_t)(int8_t)mem_read8(ctx, {});{} ctx->r[{}] = v; }"@, seq![x0, x1, x2]) + rest =~= "    uint32_t v = (uint32_t)(int32_t)(int8_t)mem_read8(ctx, "@ + (x0 + (");"@ + (x1 + (" ctx->r["@ + (x2 + ("] = v; }"@ + (rest))))))));
}

pub open spec fn read_signed_byte_back_line(x: Expression, rn: nat, rd: nat) -> Program {
    Program::Then(
        Layout::First,
        Statement::Declare(Type::U32, Declared::One(Name::V, Expression::Cast(Type::U32, Box::new(Expression::Cast(Type::I32, Box::new(Expression::Cast(Type::I8, Box::new(Expression::Load(8, Box::new(x)))))))))),
        Box::new(Program::Then(
        Layout::Middle,
        Statement::Assign(Place::Register(rn), Expression::Local(Name::Oa)),
        Box::new(Program::Then(
        Layout::Middle,
        Statement::Assign(Place::Register(rd), Expression::Local(Name::V)),
        Box::new(Program::Then(
        Layout::Last,
        Statement::Close,
        Box::new(Program::End),
    )),
    )),
    )),
    )
}

pub proof fn lemma_read_signed_byte_back_line(x: Expression, rn: nat, rd: nat)
    requires
        x.grouped(),
    ensures
        read_signed_byte_back_line(x, rn, rd).text() == text::fill("    uint32_t v = (uint32_t)(int32_t)(int8_t)mem_read8(ctx, {});{} ctx->r[{}] = v; }"@, seq![x.text(), text::fill(" ctx->r[{}] = oa;"@, seq![text::dec(rn)]), text::dec(rd)]).push('\n'),
        read_signed_byte_back_line(x, rn, rd).grouped(),
{
    reveal_with_fuel(Program::text, 5);
    reveal_with_fuel(Program::grouped, 5);
    lemma_statement_6(Seq::<char>::empty());
    lemma_statement_12(rd, "}\n"@ + (Seq::<char>::empty()));
    lemma_statement_13(rn, "ctx->r["@ + (text::dec(rd) + ("] = v; "@ + ("}\n"@ + (Seq::<char>::empty())))));
    lemma_statement_15(x, "ctx->r["@ + (text::dec(rn) + ("] = oa; "@ + ("ctx->r["@ + (text::dec(rd) + ("] = v; "@ + ("}\n"@ + (Seq::<char>::empty()))))))));
    lemma_text_10(text::dec(rn), " ctx->r["@ + (text::dec(rd) + ("] = v; }"@ + ("\n"@ + Seq::<char>::empty()))));
    lemma_text_11(x.text(), text::fill(" ctx->r[{}] = oa;"@, seq![text::dec(rn)]), text::dec(rd), "\n"@ + Seq::<char>::empty());
    lemma_letters_8(Seq::<char>::empty());
    lemma_letters_9(text::dec(rd) + ("] = v; }"@ + ("\n"@ + (Seq::<char>::empty()))));
    lemma_letters_10(text::dec(rn) + ("] = oa;"@ + (" ctx->r["@ + (text::dec(rd) + ("] = v; }"@ + ("\n"@ + (Seq::<char>::empty())))))));
    reveal_strlit("\n");
    assert(text::fill("    uint32_t v = (uint32_t)(int32_t)(int8_t)mem_read8(ctx, {});{} ctx->r[{}] = v; }"@, seq![x.text(), text::fill(" ctx->r[{}] = oa;"@, seq![text::dec(rn)]), text::dec(rd)]).push('\n') =~= text::fill("    uint32_t v = (uint32_t)(int32_t)(int8_t)mem_read8(ctx, {});{} ctx->r[{}] = v; }"@, seq![x.text(), text::fill(" ctx->r[{}] = oa;"@, seq![text::dec(rn)]), text::dec(rd)]) + ("\n"@ + Seq::<char>::empty()));
    assert(read_signed_byte_back_line(x, rn, rd).text() == text::fill("    uint32_t v = (uint32_t)(int32_t)(int8_t)mem_read8(ctx, {});{} ctx->r[{}] = v; }"@, seq![x.text(), text::fill(" ctx->r[{}] = oa;"@, seq![text::dec(rn)]), text::dec(rd)]).push('\n'));
}

#[verifier::rlimit(60)]
proof fn lemma_statement_16(x: Expression, rest: Seq<char>)
    requires
        x.grouped(),
    ensures
        Layout::First.around(Statement::Declare(Type::U32, Declared::One(Name::V, Expression::Cast(Type::U32, Box::new(Expression::Cast(Type::I32, Box::new(Expression::Cast(Type::I16, Box::new(Expression::Load(16, Box::new(x)))))))))).text()) + rest == "    uint32_t v = (uint32_t)(int32_t)(int16_t)mem_read16(ctx, "@ + (x.text() + ("); "@ + (rest))),
        Statement::Declare(Type::U32, Declared::One(Name::V, Expression::Cast(Type::U32, Box::new(Expression::Cast(Type::I32, Box::new(Expression::Cast(Type::I16, Box::new(Expression::Load(16, Box::new(x)))))))))).grouped(),
{
    reveal_strlit(" ");
    reveal_strlit("    ");
    reveal_strlit("    uint32_t v = (uint32_t)(int32_t)(int16_t)mem_read16(ctx, ");
    reveal_strlit(" = ");
    reveal_strlit("(");
    reveal_strlit("(ctx, ");
    reveal_strlit(")");
    reveal_strlit("); ");
    reveal_strlit("16");
    reveal_strlit(";");
    reveal_strlit("int16_t");
    reveal_strlit("int32_t");
    reveal_strlit("mem_read");
    reveal_strlit("uint32_t");
    reveal_strlit("v");
    small_c::lemma_numbers();
    reveal(Statement::text);
    reveal(Statement::grouped);
    reveal_with_fuel(Declared::text, 2);
    reveal_with_fuel(Declared::grouped, 2);
    reveal_with_fuel(Expression::text, 5);
    reveal_with_fuel(Expression::grouped, 5);
    assert(Layout::First.around(Statement::Declare(Type::U32, Declared::One(Name::V, Expression::Cast(Type::U32, Box::new(Expression::Cast(Type::I32, Box::new(Expression::Cast(Type::I16, Box::new(Expression::Load(16, Box::new(x)))))))))).text()) + rest =~= "    uint32_t v = (uint32_t)(int32_t)(int16_t)mem_read16(ctx, "@ + (x.text() + ("); "@ + (rest))));
}

proof fn lemma_text_12(x0: Seq<char>, x1: Seq<char>, x2: Seq<char>, rest: Seq<char>)
    ensures
        text::fill("    uint32_t v = (uint32_t)(int32_t)(int16_t)mem_read16(ctx, {});{} ctx->r[{}] = v; }"@, seq![x0, x1, x2]) + rest == "    uint32_t v = (uint32_t)(int32_t)(int16_t)mem_read16(ctx, "@ + (x0 + (");"@ + (x1 + (" ctx->r["@ + (x2 + ("] = v; }"@ + (rest))))))),
{
    reveal_strlit("    uint32_t v = (uint32_t)(int32_t)(int16_t)mem_read16(ctx, {});{} ctx->r[{}] = v; }");
    reveal_strlit("{}");
    reveal_strlit("    uint32_t v = (uint32_t)(int32_t)(int16_t)mem_read16(ctx, ");
    reveal_strlit(");");
    reveal_strlit(" ctx->r[");
    reveal_strlit("] = v; }");
    assert("    uint32_t v = (uint32_t)(int32_t)(int16_t)mem_read16(ctx, {});{} ctx->r[{}] = v; }"@ =~= "    uint32_t v = (uint32_t)(int32_t)(int16_t)mem_read16(ctx, "@ + "{}"@ + (");"@ + "{}"@ + (" ctx->r["@ + "{}"@ + ("] = v; }"@))));
    let args_0 = seq![x0, x1, x2];
    let args_1 = seq![x1, x2];
    let args_2 = seq![x2];
    let args_3 = Seq::<Seq<char>>::empty();
    assert(args_0.skip(1) =~= args_1);
    assert(args_1.skip(1) =~= args_2);
    assert(args_2.skip(1) =~= args_3);
    lemma_hole("    uint32_t v = (uint32_t)(int32_t)(int16_t)mem_read16(ctx, "@, ");"@ + "{}"@ + (" ctx->r["@ + "{}"@ + ("] = v; }"@)), args_0);
    lemma_hole(");"@, " ctx->r["@ + "{}"@ + ("] = v; }"@), args_1);
    lemma_hole(" ctx->r["@, "] = v; }"@, args_2);
    lemma_plain("] = v; }"@);
    assert(text::fill("    uint32_t v = (uint32_t)(int32_t)(int16_t)mem_read16(ctx, {});{} ctx->r[{}] = v; }"@, seq![x0, x1, x2]) + rest =~= "    uint32_t v = (uint32_t)(int32_t)(int16_t)mem_read16(ctx, "@ + (x0 + (");"@ + (x1 + (" ctx->r["@ + (x2 + ("] = v; }"@ + (rest))))))));
}

pub open spec fn read_signed_half_back_line(x: Expression, rn: nat, rd: nat) -> Program {
    Program::Then(
        Layout::First,
        Statement::Declare(Type::U32, Declared::One(Name::V, Expression::Cast(Type::U32, Box::new(Expression::Cast(Type::I32, Box::new(Expression::Cast(Type::I16, Box::new(Expression::Load(16, Box::new(x)))))))))),
        Box::new(Program::Then(
        Layout::Middle,
        Statement::Assign(Place::Register(rn), Expression::Local(Name::Oa)),
        Box::new(Program::Then(
        Layout::Middle,
        Statement::Assign(Place::Register(rd), Expression::Local(Name::V)),
        Box::new(Program::Then(
        Layout::Last,
        Statement::Close,
        Box::new(Program::End),
    )),
    )),
    )),
    )
}

pub proof fn lemma_read_signed_half_back_line(x: Expression, rn: nat, rd: nat)
    requires
        x.grouped(),
    ensures
        read_signed_half_back_line(x, rn, rd).text() == text::fill("    uint32_t v = (uint32_t)(int32_t)(int16_t)mem_read16(ctx, {});{} ctx->r[{}] = v; }"@, seq![x.text(), text::fill(" ctx->r[{}] = oa;"@, seq![text::dec(rn)]), text::dec(rd)]).push('\n'),
        read_signed_half_back_line(x, rn, rd).grouped(),
{
    reveal_with_fuel(Program::text, 5);
    reveal_with_fuel(Program::grouped, 5);
    lemma_statement_6(Seq::<char>::empty());
    lemma_statement_12(rd, "}\n"@ + (Seq::<char>::empty()));
    lemma_statement_13(rn, "ctx->r["@ + (text::dec(rd) + ("] = v; "@ + ("}\n"@ + (Seq::<char>::empty())))));
    lemma_statement_16(x, "ctx->r["@ + (text::dec(rn) + ("] = oa; "@ + ("ctx->r["@ + (text::dec(rd) + ("] = v; "@ + ("}\n"@ + (Seq::<char>::empty()))))))));
    lemma_text_10(text::dec(rn), " ctx->r["@ + (text::dec(rd) + ("] = v; }"@ + ("\n"@ + Seq::<char>::empty()))));
    lemma_text_12(x.text(), text::fill(" ctx->r[{}] = oa;"@, seq![text::dec(rn)]), text::dec(rd), "\n"@ + Seq::<char>::empty());
    lemma_letters_8(Seq::<char>::empty());
    lemma_letters_9(text::dec(rd) + ("] = v; }"@ + ("\n"@ + (Seq::<char>::empty()))));
    lemma_letters_10(text::dec(rn) + ("] = oa;"@ + (" ctx->r["@ + (text::dec(rd) + ("] = v; }"@ + ("\n"@ + (Seq::<char>::empty())))))));
    reveal_strlit("\n");
    assert(text::fill("    uint32_t v = (uint32_t)(int32_t)(int16_t)mem_read16(ctx, {});{} ctx->r[{}] = v; }"@, seq![x.text(), text::fill(" ctx->r[{}] = oa;"@, seq![text::dec(rn)]), text::dec(rd)]).push('\n') =~= text::fill("    uint32_t v = (uint32_t)(int32_t)(int16_t)mem_read16(ctx, {});{} ctx->r[{}] = v; }"@, seq![x.text(), text::fill(" ctx->r[{}] = oa;"@, seq![text::dec(rn)]), text::dec(rd)]) + ("\n"@ + Seq::<char>::empty()));
    assert(read_signed_half_back_line(x, rn, rd).text() == text::fill("    uint32_t v = (uint32_t)(int32_t)(int16_t)mem_read16(ctx, {});{} ctx->r[{}] = v; }"@, seq![x.text(), text::fill(" ctx->r[{}] = oa;"@, seq![text::dec(rn)]), text::dec(rd)]).push('\n'));
}

proof fn lemma_statement_17(x: Expression, y: Expression, rest: Seq<char>)
    requires
        x.grouped(),
        y.grouped(),
        y.strength() >= 15,
    ensures
        Layout::First.around(Statement::Store(16, x, Expression::Cast(Type::U16, Box::new(y))).text()) + rest == "    mem_write16(ctx, "@ + (x.text() + (", (uint16_t)"@ + (y.text() + ("); "@ + (rest))))),
        Statement::Store(16, x, Expression::Cast(Type::U16, Box::new(y))).grouped(),
{
    reveal_strlit(" ");
    reveal_strlit("    ");
    reveal_strlit("    mem_write16(ctx, ");
    reveal_strlit("(");
    reveal_strlit("(ctx, ");
    reveal_strlit(")");
    reveal_strlit(");");
    reveal_strlit("); ");
    reveal_strlit(", ");
    reveal_strlit(", (uint16_t)");
    reveal_strlit("16");
    reveal_strlit("mem_write");
    reveal_strlit("uint16_t");
    small_c::lemma_numbers();
    reveal(Statement::text);
    reveal(Statement::grouped);
    reveal_with_fuel(Expression::text, 2);
    reveal_with_fuel(Expression::grouped, 2);
    assert(Layout::First.around(Statement::Store(16, x, Expression::Cast(Type::U16, Box::new(y))).text()) + rest =~= "    mem_write16(ctx, "@ + (x.text() + (", (uint16_t)"@ + (y.text() + ("); "@ + (rest))))));
}

proof fn lemma_text_13(x0: Seq<char>, x1: Seq<char>, x2: Seq<char>, rest: Seq<char>)
    ensures
        text::fill("    mem_write16(ctx, {}, (uint16_t){});{} }"@, seq![x0, x1, x2]) + rest == "    mem_write16(ctx, "@ + (x0 + (", (uint16_t)"@ + (x1 + (");"@ + (x2 + (" }"@ + (rest))))))),
{
    reveal_strlit("    mem_write16(ctx, {}, (uint16_t){});{} }");
    reveal_strlit("{}");
    reveal_strlit("    mem_write16(ctx, ");
    reveal_strlit(", (uint16_t)");
    reveal_strlit(");");
    reveal_strlit(" }");
    assert("    mem_write16(ctx, {}, (uint16_t){});{} }"@ =~= "    mem_write16(ctx, "@ + "{}"@ + (", (uint16_t)"@ + "{}"@ + (");"@ + "{}"@ + (" }"@))));
    let args_0 = seq![x0, x1, x2];
    let args_1 = seq![x1, x2];
    let args_2 = seq![x2];
    let args_3 = Seq::<Seq<char>>::empty();
    assert(args_0.skip(1) =~= args_1);
    assert(args_1.skip(1) =~= args_2);
    assert(args_2.skip(1) =~= args_3);
    lemma_hole("    mem_write16(ctx, "@, ", (uint16_t)"@ + "{}"@ + (");"@ + "{}"@ + (" }"@)), args_0);
    lemma_hole(", (uint16_t)"@, ");"@ + "{}"@ + (" }"@), args_1);
    lemma_hole(");"@, " }"@, args_2);
    lemma_plain(" }"@);
    assert(text::fill("    mem_write16(ctx, {}, (uint16_t){});{} }"@, seq![x0, x1, x2]) + rest =~= "    mem_write16(ctx, "@ + (x0 + (", (uint16_t)"@ + (x1 + (");"@ + (x2 + (" }"@ + (rest))))))));
}

proof fn lemma_letters_11(rest: Seq<char>)
    ensures
        "] = oa; "@ + ("}\n"@ + (rest)) == "] = oa;"@ + (" }"@ + ("\n"@ + (rest))),
{
    reveal_strlit("] = oa; ");
    reveal_strlit("}\n");
    reveal_strlit("] = oa;");
    reveal_strlit(" }");
    reveal_strlit("\n");
    assert("] = oa; "@ + ("}\n"@ + (rest)) =~= "] = oa;"@ + (" }"@ + ("\n"@ + (rest))));
}

pub open spec fn write_half_back_line(x: Expression, y: Expression, rn: nat) -> Program {
    Program::Then(
        Layout::First,
        Statement::Store(16, x, Expression::Cast(Type::U16, Box::new(y))),
        Box::new(Program::Then(
        Layout::Middle,
        Statement::Assign(Place::Register(rn), Expression::Local(Name::Oa)),
        Box::new(Program::Then(
        Layout::Last,
        Statement::Close,
        Box::new(Program::End),
    )),
    )),
    )
}

pub proof fn lemma_write_half_back_line(x: Expression, y: Expression, rn: nat)
    requires
        x.grouped(),
        y.grouped(),
        y.strength() >= 15,
    ensures
        write_half_back_line(x, y, rn).text() == text::fill("    mem_write16(ctx, {}, (uint16_t){});{} }"@, seq![x.text(), y.text(), text::fill(" ctx->r[{}] = oa;"@, seq![text::dec(rn)])]).push('\n'),
        write_half_back_line(x, y, rn).grouped(),
{
    reveal_with_fuel(Program::text, 4);
    reveal_with_fuel(Program::grouped, 4);
    lemma_statement_6(Seq::<char>::empty());
    lemma_statement_13(rn, "}\n"@ + (Seq::<char>::empty()));
    lemma_statement_17(x, y, "ctx->r["@ + (text::dec(rn) + ("] = oa; "@ + ("}\n"@ + (Seq::<char>::empty())))));
    lemma_text_10(text::dec(rn), " }"@ + ("\n"@ + Seq::<char>::empty()));
    lemma_text_13(x.text(), y.text(), text::fill(" ctx->r[{}] = oa;"@, seq![text::dec(rn)]), "\n"@ + Seq::<char>::empty());
    lemma_letters_11(Seq::<char>::empty());
    lemma_letters_10(text::dec(rn) + ("] = oa;"@ + (" }"@ + ("\n"@ + (Seq::<char>::empty())))));
    reveal_strlit("\n");
    assert(text::fill("    mem_write16(ctx, {}, (uint16_t){});{} }"@, seq![x.text(), y.text(), text::fill(" ctx->r[{}] = oa;"@, seq![text::dec(rn)])]).push('\n') =~= text::fill("    mem_write16(ctx, {}, (uint16_t){});{} }"@, seq![x.text(), y.text(), text::fill(" ctx->r[{}] = oa;"@, seq![text::dec(rn)])]) + ("\n"@ + Seq::<char>::empty()));
    assert(write_half_back_line(x, y, rn).text() == text::fill("    mem_write16(ctx, {}, (uint16_t){});{} }"@, seq![x.text(), y.text(), text::fill(" ctx->r[{}] = oa;"@, seq![text::dec(rn)])]).push('\n'));
}

proof fn lemma_statement_18(second: nat, rest: Seq<char>)
    ensures
        Layout::Middle.around(Statement::Assign(Place::Register(second), Expression::Local(Name::Hi)).text()) + rest == "ctx->r["@ + (text::dec(second) + ("] = hi; "@ + (rest))),
        Statement::Assign(Place::Register(second), Expression::Local(Name::Hi)).grouped(),
{
    reveal_strlit(" ");
    reveal_strlit(" = ");
    reveal_strlit(";");
    reveal_strlit("]");
    reveal_strlit("] = hi; ");
    reveal_strlit("ctx->r[");
    reveal_strlit("hi");
    small_c::lemma_numbers();
    reveal(Statement::text);
    reveal(Statement::grouped);
    reveal_with_fuel(Expression::text, 2);
    reveal_with_fuel(Expression::grouped, 2);
    assert(Layout::Middle.around(Statement::Assign(Place::Register(second), Expression::Local(Name::Hi)).text()) + rest =~= "ctx->r["@ + (text::dec(second) + ("] = hi; "@ + (rest))));
}

proof fn lemma_statement_19(rd: nat, rest: Seq<char>)
    ensures
        Layout::Middle.around(Statement::Assign(Place::Register(rd), Expression::Local(Name::Lo)).text()) + rest == "ctx->r["@ + (text::dec(rd) + ("] = lo; "@ + (rest))),
        Statement::Assign(Place::Register(rd), Expression::Local(Name::Lo)).grouped(),
{
    reveal_strlit(" ");
    reveal_strlit(" = ");
    reveal_strlit(";");
    reveal_strlit("]");
    reveal_strlit("] = lo; ");
    reveal_strlit("ctx->r[");
    reveal_strlit("lo");
    small_c::lemma_numbers();
    reveal(Statement::text);
    reveal(Statement::grouped);
    reveal_with_fuel(Expression::text, 2);
    reveal_with_fuel(Expression::grouped, 2);
    assert(Layout::Middle.around(Statement::Assign(Place::Register(rd), Expression::Local(Name::Lo)).text()) + rest =~= "ctx->r["@ + (text::dec(rd) + ("] = lo; "@ + (rest))));
}

proof fn lemma_statement_20(x: Expression, rest: Seq<char>)
    requires
        x.grouped(),
        x.strength() == 16,
    ensures
        Layout::First.around(Statement::Declare(Type::U32, Declared::More(Name::Lo, Expression::Load(32, Box::new(x)), Box::new(Declared::One(Name::Hi, Expression::Load(32, Box::new(Expression::Two(Operator::Plus, Box::new(x), Box::new(Expression::Int(4))))))))).text()) + rest == "    uint32_t lo = mem_read32(ctx, "@ + (x.text() + ("), hi = mem_read32(ctx, "@ + (x.text() + (" + 4); "@ + (rest))))),
        Statement::Declare(Type::U32, Declared::More(Name::Lo, Expression::Load(32, Box::new(x)), Box::new(Declared::One(Name::Hi, Expression::Load(32, Box::new(Expression::Two(Operator::Plus, Box::new(x), Box::new(Expression::Int(4))))))))).grouped(),
{
    reveal_strlit(" ");
    reveal_strlit("    ");
    reveal_strlit("    uint32_t lo = mem_read32(ctx, ");
    reveal_strlit(" + ");
    reveal_strlit(" + 4); ");
    reveal_strlit(" = ");
    reveal_strlit("(ctx, ");
    reveal_strlit(")");
    reveal_strlit("), hi = mem_read32(ctx, ");
    reveal_strlit(", ");
    reveal_strlit("32");
    reveal_strlit("4");
    reveal_strlit(";");
    reveal_strlit("hi");
    reveal_strlit("lo");
    reveal_strlit("mem_read");
    reveal_strlit("uint32_t");
    small_c::lemma_numbers();
    reveal(Statement::text);
    reveal(Statement::grouped);
    reveal_with_fuel(Declared::text, 3);
    reveal_with_fuel(Declared::grouped, 3);
    reveal_with_fuel(Expression::text, 4);
    reveal_with_fuel(Expression::grouped, 4);
    assert(Layout::First.around(Statement::Declare(Type::U32, Declared::More(Name::Lo, Expression::Load(32, Box::new(x)), Box::new(Declared::One(Name::Hi, Expression::Load(32, Box::new(Expression::Two(Operator::Plus, Box::new(x), Box::new(Expression::Int(4))))))))).text()) + rest =~= "    uint32_t lo = mem_read32(ctx, "@ + (x.text() + ("), hi = mem_read32(ctx, "@ + (x.text() + (" + 4); "@ + (rest))))));
}

proof fn lemma_text_14(x0: Seq<char>, x1: Seq<char>, x2: Seq<char>, x3: Seq<char>, x4: Seq<char>, rest: Seq<char>)
    ensures
        text::fill("    uint32_t lo = mem_read32(ctx, {}), hi = mem_read32(ctx, {} + 4);{} ctx->r[{}] = lo; ctx->r[{}] = hi; }"@, seq![x0, x1, x2, x3, x4]) + rest == "    uint32_t lo = mem_read32(ctx, "@ + (x0 + ("), hi = mem_read32(ctx, "@ + (x1 + (" + 4);"@ + (x2 + (" ctx->r["@ + (x3 + ("] = lo; ctx->r["@ + (x4 + ("] = hi; }"@ + (rest))))))))))),
{
    reveal_strlit("    uint32_t lo = mem_read32(ctx, {}), hi = mem_read32(ctx, {} + 4);{} ctx->r[{}] = lo; ctx->r[{}] = hi; }");
    reveal_strlit("{}");
    reveal_strlit("    uint32_t lo = mem_read32(ctx, ");
    reveal_strlit("), hi = mem_read32(ctx, ");
    reveal_strlit(" + 4);");
    reveal_strlit(" ctx->r[");
    reveal_strlit("] = lo; ctx->r[");
    reveal_strlit("] = hi; }");
    assert("    uint32_t lo = mem_read32(ctx, {}), hi = mem_read32(ctx, {} + 4);{} ctx->r[{}] = lo; ctx->r[{}] = hi; }"@ =~= "    uint32_t lo = mem_read32(ctx, "@ + "{}"@ + ("), hi = mem_read32(ctx, "@ + "{}"@ + (" + 4);"@ + "{}"@ + (" ctx->r["@ + "{}"@ + ("] = lo; ctx->r["@ + "{}"@ + ("] = hi; }"@))))));
    let args_0 = seq![x0, x1, x2, x3, x4];
    let args_1 = seq![x1, x2, x3, x4];
    let args_2 = seq![x2, x3, x4];
    let args_3 = seq![x3, x4];
    let args_4 = seq![x4];
    let args_5 = Seq::<Seq<char>>::empty();
    assert(args_0.skip(1) =~= args_1);
    assert(args_1.skip(1) =~= args_2);
    assert(args_2.skip(1) =~= args_3);
    assert(args_3.skip(1) =~= args_4);
    assert(args_4.skip(1) =~= args_5);
    lemma_hole("    uint32_t lo = mem_read32(ctx, "@, "), hi = mem_read32(ctx, "@ + "{}"@ + (" + 4);"@ + "{}"@ + (" ctx->r["@ + "{}"@ + ("] = lo; ctx->r["@ + "{}"@ + ("] = hi; }"@)))), args_0);
    lemma_hole("), hi = mem_read32(ctx, "@, " + 4);"@ + "{}"@ + (" ctx->r["@ + "{}"@ + ("] = lo; ctx->r["@ + "{}"@ + ("] = hi; }"@))), args_1);
    lemma_hole(" + 4);"@, " ctx->r["@ + "{}"@ + ("] = lo; ctx->r["@ + "{}"@ + ("] = hi; }"@)), args_2);
    lemma_hole(" ctx->r["@, "] = lo; ctx->r["@ + "{}"@ + ("] = hi; }"@), args_3);
    lemma_hole("] = lo; ctx->r["@, "] = hi; }"@, args_4);
    lemma_plain("] = hi; }"@);
    assert(text::fill("    uint32_t lo = mem_read32(ctx, {}), hi = mem_read32(ctx, {} + 4);{} ctx->r[{}] = lo; ctx->r[{}] = hi; }"@, seq![x0, x1, x2, x3, x4]) + rest =~= "    uint32_t lo = mem_read32(ctx, "@ + (x0 + ("), hi = mem_read32(ctx, "@ + (x1 + (" + 4);"@ + (x2 + (" ctx->r["@ + (x3 + ("] = lo; ctx->r["@ + (x4 + ("] = hi; }"@ + (rest))))))))))));
}

proof fn lemma_letters_12(rest: Seq<char>)
    ensures
        "] = hi; "@ + ("}\n"@ + (rest)) == "] = hi; }"@ + ("\n"@ + (rest)),
{
    reveal_strlit("] = hi; ");
    reveal_strlit("}\n");
    reveal_strlit("] = hi; }");
    reveal_strlit("\n");
    assert("] = hi; "@ + ("}\n"@ + (rest)) =~= "] = hi; }"@ + ("\n"@ + (rest)));
}

proof fn lemma_letters_13(rest: Seq<char>)
    ensures
        "] = lo; "@ + ("ctx->r["@ + (rest)) == "] = lo; ctx->r["@ + (rest),
{
    reveal_strlit("] = lo; ");
    reveal_strlit("ctx->r[");
    reveal_strlit("] = lo; ctx->r[");
    assert("] = lo; "@ + ("ctx->r["@ + (rest)) =~= "] = lo; ctx->r["@ + (rest));
}

proof fn lemma_letters_14(rest: Seq<char>)
    ensures
        " + 4); "@ + ("ctx->r["@ + (rest)) == " + 4);"@ + (" ctx->r["@ + (rest)),
{
    reveal_strlit(" + 4); ");
    reveal_strlit("ctx->r[");
    reveal_strlit(" + 4);");
    reveal_strlit(" ctx->r[");
    assert(" + 4); "@ + ("ctx->r["@ + (rest)) =~= " + 4);"@ + (" ctx->r["@ + (rest)));
}

pub open spec fn read_pair_back_line(x: Expression, rn: nat, rd: nat, second: nat) -> Program {
    Program::Then(
        Layout::First,
        Statement::Declare(Type::U32, Declared::More(Name::Lo, Expression::Load(32, Box::new(x)), Box::new(Declared::One(Name::Hi, Expression::Load(32, Box::new(Expression::Two(Operator::Plus, Box::new(x), Box::new(Expression::Int(4))))))))),
        Box::new(Program::Then(
        Layout::Middle,
        Statement::Assign(Place::Register(rn), Expression::Local(Name::Oa)),
        Box::new(Program::Then(
        Layout::Middle,
        Statement::Assign(Place::Register(rd), Expression::Local(Name::Lo)),
        Box::new(Program::Then(
        Layout::Middle,
        Statement::Assign(Place::Register(second), Expression::Local(Name::Hi)),
        Box::new(Program::Then(
        Layout::Last,
        Statement::Close,
        Box::new(Program::End),
    )),
    )),
    )),
    )),
    )
}

pub proof fn lemma_read_pair_back_line(x: Expression, rn: nat, rd: nat, second: nat)
    requires
        x.grouped(),
        x.strength() == 16,
    ensures
        read_pair_back_line(x, rn, rd, second).text() == text::fill("    uint32_t lo = mem_read32(ctx, {}), hi = mem_read32(ctx, {} + 4);{} ctx->r[{}] = lo; ctx->r[{}] = hi; }"@, seq![x.text(), x.text(), text::fill(" ctx->r[{}] = oa;"@, seq![text::dec(rn)]), text::dec(rd), text::dec(second)]).push('\n'),
        read_pair_back_line(x, rn, rd, second).grouped(),
{
    reveal_with_fuel(Program::text, 6);
    reveal_with_fuel(Program::grouped, 6);
    lemma_statement_6(Seq::<char>::empty());
    lemma_statement_18(second, "}\n"@ + (Seq::<char>::empty()));
    lemma_statement_19(rd, "ctx->r["@ + (text::dec(second) + ("] = hi; "@ + ("}\n"@ + (Seq::<char>::empty())))));
    lemma_statement_13(rn, "ctx->r["@ + (text::dec(rd) + ("] = lo; "@ + ("ctx->r["@ + (text::dec(second) + ("] = hi; "@ + ("}\n"@ + (Seq::<char>::empty()))))))));
    lemma_statement_20(x, "ctx->r["@ + (text::dec(rn) + ("] = oa; "@ + ("ctx->r["@ + (text::dec(rd) + ("] = lo; "@ + ("ctx->r["@ + (text::dec(second) + ("] = hi; "@ + ("}\n"@ + (Seq::<char>::empty())))))))))));
    lemma_text_10(text::dec(rn), " ctx->r["@ + (text::dec(rd) + ("] = lo; ctx->r["@ + (text::dec(second) + ("] = hi; }"@ + ("\n"@ + Seq::<char>::empty()))))));
    lemma_text_14(x.text(), x.text(), text::fill(" ctx->r[{}] = oa;"@, seq![text::dec(rn)]), text::dec(rd), text::dec(second), "\n"@ + Seq::<char>::empty());
    lemma_letters_12(Seq::<char>::empty());
    lemma_letters_13(text::dec(second) + ("] = hi; }"@ + ("\n"@ + (Seq::<char>::empty()))));
    lemma_letters_9(text::dec(rd) + ("] = lo; ctx->r["@ + (text::dec(second) + ("] = hi; }"@ + ("\n"@ + (Seq::<char>::empty()))))));
    lemma_letters_14(text::dec(rn) + ("] = oa;"@ + (" ctx->r["@ + (text::dec(rd) + ("] = lo; ctx->r["@ + (text::dec(second) + ("] = hi; }"@ + ("\n"@ + (Seq::<char>::empty())))))))));
    reveal_strlit("\n");
    assert(text::fill("    uint32_t lo = mem_read32(ctx, {}), hi = mem_read32(ctx, {} + 4);{} ctx->r[{}] = lo; ctx->r[{}] = hi; }"@, seq![x.text(), x.text(), text::fill(" ctx->r[{}] = oa;"@, seq![text::dec(rn)]), text::dec(rd), text::dec(second)]).push('\n') =~= text::fill("    uint32_t lo = mem_read32(ctx, {}), hi = mem_read32(ctx, {} + 4);{} ctx->r[{}] = lo; ctx->r[{}] = hi; }"@, seq![x.text(), x.text(), text::fill(" ctx->r[{}] = oa;"@, seq![text::dec(rn)]), text::dec(rd), text::dec(second)]) + ("\n"@ + Seq::<char>::empty()));
    assert(read_pair_back_line(x, rn, rd, second).text() == text::fill("    uint32_t lo = mem_read32(ctx, {}), hi = mem_read32(ctx, {} + 4);{} ctx->r[{}] = lo; ctx->r[{}] = hi; }"@, seq![x.text(), x.text(), text::fill(" ctx->r[{}] = oa;"@, seq![text::dec(rn)]), text::dec(rd), text::dec(second)]).push('\n'));
}

proof fn lemma_statement_21(x: Expression, second: nat, rest: Seq<char>)
    requires
        x.grouped(),
        x.strength() == 16,
    ensures
        Layout::Middle.around(Statement::Store(32, Expression::Two(Operator::Plus, Box::new(x), Box::new(Expression::Int(4))), Expression::Register(second)).text()) + rest == "mem_write32(ctx, "@ + (x.text() + (" + 4, ctx->r["@ + (text::dec(second) + ("]); "@ + (rest))))),
        Statement::Store(32, Expression::Two(Operator::Plus, Box::new(x), Box::new(Expression::Int(4))), Expression::Register(second)).grouped(),
{
    reveal_strlit(" ");
    reveal_strlit(" + ");
    reveal_strlit(" + 4, ctx->r[");
    reveal_strlit("(ctx, ");
    reveal_strlit(");");
    reveal_strlit(", ");
    reveal_strlit("32");
    reveal_strlit("4");
    reveal_strlit("]");
    reveal_strlit("]); ");
    reveal_strlit("ctx->r[");
    reveal_strlit("mem_write");
    reveal_strlit("mem_write32(ctx, ");
    small_c::lemma_numbers();
    reveal(Statement::text);
    reveal(Statement::grouped);
    reveal_with_fuel(Expression::text, 3);
    reveal_with_fuel(Expression::grouped, 3);
    assert(Layout::Middle.around(Statement::Store(32, Expression::Two(Operator::Plus, Box::new(x), Box::new(Expression::Int(4))), Expression::Register(second)).text()) + rest =~= "mem_write32(ctx, "@ + (x.text() + (" + 4, ctx->r["@ + (text::dec(second) + ("]); "@ + (rest))))));
}

proof fn lemma_statement_22(x: Expression, rd: nat, rest: Seq<char>)
    requires
        x.grouped(),
        x.strength() == 16,
    ensures
        Layout::First.around(Statement::Store(32, x, Expression::Register(rd)).text()) + rest == "    mem_write32(ctx, "@ + (x.text() + (", ctx->r["@ + (text::dec(rd) + ("]); "@ + (rest))))),
        Statement::Store(32, x, Expression::Register(rd)).grouped(),
{
    reveal_strlit(" ");
    reveal_strlit("    ");
    reveal_strlit("    mem_write32(ctx, ");
    reveal_strlit("(ctx, ");
    reveal_strlit(");");
    reveal_strlit(", ");
    reveal_strlit(", ctx->r[");
    reveal_strlit("32");
    reveal_strlit("]");
    reveal_strlit("]); ");
    reveal_strlit("ctx->r[");
    reveal_strlit("mem_write");
    small_c::lemma_numbers();
    reveal(Statement::text);
    reveal(Statement::grouped);
    reveal_with_fuel(Expression::text, 2);
    reveal_with_fuel(Expression::grouped, 2);
    assert(Layout::First.around(Statement::Store(32, x, Expression::Register(rd)).text()) + rest =~= "    mem_write32(ctx, "@ + (x.text() + (", ctx->r["@ + (text::dec(rd) + ("]); "@ + (rest))))));
}

proof fn lemma_text_15(x0: Seq<char>, x1: Seq<char>, x2: Seq<char>, x3: Seq<char>, x4: Seq<char>, rest: Seq<char>)
    ensures
        text::fill("    mem_write32(ctx, {}, ctx->r[{}]); mem_write32(ctx, {} + 4, ctx->r[{}]);{} }"@, seq![x0, x1, x2, x3, x4]) + rest == "    mem_write32(ctx, "@ + (x0 + (", ctx->r["@ + (x1 + ("]); mem_write32(ctx, "@ + (x2 + (" + 4, ctx->r["@ + (x3 + ("]);"@ + (x4 + (" }"@ + (rest))))))))))),
{
    reveal_strlit("    mem_write32(ctx, {}, ctx->r[{}]); mem_write32(ctx, {} + 4, ctx->r[{}]);{} }");
    reveal_strlit("{}");
    reveal_strlit("    mem_write32(ctx, ");
    reveal_strlit(", ctx->r[");
    reveal_strlit("]); mem_write32(ctx, ");
    reveal_strlit(" + 4, ctx->r[");
    reveal_strlit("]);");
    reveal_strlit(" }");
    assert("    mem_write32(ctx, {}, ctx->r[{}]); mem_write32(ctx, {} + 4, ctx->r[{}]);{} }"@ =~= "    mem_write32(ctx, "@ + "{}"@ + (", ctx->r["@ + "{}"@ + ("]); mem_write32(ctx, "@ + "{}"@ + (" + 4, ctx->r["@ + "{}"@ + ("]);"@ + "{}"@ + (" }"@))))));
    let args_0 = seq![x0, x1, x2, x3, x4];
    let args_1 = seq![x1, x2, x3, x4];
    let args_2 = seq![x2, x3, x4];
    let args_3 = seq![x3, x4];
    let args_4 = seq![x4];
    let args_5 = Seq::<Seq<char>>::empty();
    assert(args_0.skip(1) =~= args_1);
    assert(args_1.skip(1) =~= args_2);
    assert(args_2.skip(1) =~= args_3);
    assert(args_3.skip(1) =~= args_4);
    assert(args_4.skip(1) =~= args_5);
    lemma_hole("    mem_write32(ctx, "@, ", ctx->r["@ + "{}"@ + ("]); mem_write32(ctx, "@ + "{}"@ + (" + 4, ctx->r["@ + "{}"@ + ("]);"@ + "{}"@ + (" }"@)))), args_0);
    lemma_hole(", ctx->r["@, "]); mem_write32(ctx, "@ + "{}"@ + (" + 4, ctx->r["@ + "{}"@ + ("]);"@ + "{}"@ + (" }"@))), args_1);
    lemma_hole("]); mem_write32(ctx, "@, " + 4, ctx->r["@ + "{}"@ + ("]);"@ + "{}"@ + (" }"@)), args_2);
    lemma_hole(" + 4, ctx->r["@, "]);"@ + "{}"@ + (" }"@), args_3);
    lemma_hole("]);"@, " }"@, args_4);
    lemma_plain(" }"@);
    assert(text::fill("    mem_write32(ctx, {}, ctx->r[{}]); mem_write32(ctx, {} + 4, ctx->r[{}]);{} }"@, seq![x0, x1, x2, x3, x4]) + rest =~= "    mem_write32(ctx, "@ + (x0 + (", ctx->r["@ + (x1 + ("]); mem_write32(ctx, "@ + (x2 + (" + 4, ctx->r["@ + (x3 + ("]);"@ + (x4 + (" }"@ + (rest))))))))))));
}

proof fn lemma_letters_15(rest: Seq<char>)
    ensures
        "]); "@ + ("ctx->r["@ + (rest)) == "]);"@ + (" ctx->r["@ + (rest)),
{
    reveal_strlit("]); ");
    reveal_strlit("ctx->r[");
    reveal_strlit("]);");
    reveal_strlit(" ctx->r[");
    assert("]); "@ + ("ctx->r["@ + (rest)) =~= "]);"@ + (" ctx->r["@ + (rest)));
}

proof fn lemma_letters_16(rest: Seq<char>)
    ensures
        "]); "@ + ("mem_write32(ctx, "@ + (rest)) == "]); mem_write32(ctx, "@ + (rest),
{
    reveal_strlit("]); ");
    reveal_strlit("mem_write32(ctx, ");
    reveal_strlit("]); mem_write32(ctx, ");
    assert("]); "@ + ("mem_write32(ctx, "@ + (rest)) =~= "]); mem_write32(ctx, "@ + (rest));
}

pub open spec fn write_pair_back_line(x: Expression, rn: nat, rd: nat, second: nat) -> Program {
    Program::Then(
        Layout::First,
        Statement::Store(32, x, Expression::Register(rd)),
        Box::new(Program::Then(
        Layout::Middle,
        Statement::Store(32, Expression::Two(Operator::Plus, Box::new(x), Box::new(Expression::Int(4))), Expression::Register(second)),
        Box::new(Program::Then(
        Layout::Middle,
        Statement::Assign(Place::Register(rn), Expression::Local(Name::Oa)),
        Box::new(Program::Then(
        Layout::Last,
        Statement::Close,
        Box::new(Program::End),
    )),
    )),
    )),
    )
}

pub proof fn lemma_write_pair_back_line(x: Expression, rn: nat, rd: nat, second: nat)
    requires
        x.grouped(),
        x.strength() == 16,
    ensures
        write_pair_back_line(x, rn, rd, second).text() == text::fill("    mem_write32(ctx, {}, ctx->r[{}]); mem_write32(ctx, {} + 4, ctx->r[{}]);{} }"@, seq![x.text(), text::dec(rd), x.text(), text::dec(second), text::fill(" ctx->r[{}] = oa;"@, seq![text::dec(rn)])]).push('\n'),
        write_pair_back_line(x, rn, rd, second).grouped(),
{
    reveal_with_fuel(Program::text, 5);
    reveal_with_fuel(Program::grouped, 5);
    lemma_statement_6(Seq::<char>::empty());
    lemma_statement_13(rn, "}\n"@ + (Seq::<char>::empty()));
    lemma_statement_21(x, second, "ctx->r["@ + (text::dec(rn) + ("] = oa; "@ + ("}\n"@ + (Seq::<char>::empty())))));
    lemma_statement_22(x, rd, "mem_write32(ctx, "@ + (x.text() + (" + 4, ctx->r["@ + (text::dec(second) + ("]); "@ + ("ctx->r["@ + (text::dec(rn) + ("] = oa; "@ + ("}\n"@ + (Seq::<char>::empty()))))))))));
    lemma_text_10(text::dec(rn), " }"@ + ("\n"@ + Seq::<char>::empty()));
    lemma_text_15(x.text(), text::dec(rd), x.text(), text::dec(second), text::fill(" ctx->r[{}] = oa;"@, seq![text::dec(rn)]), "\n"@ + Seq::<char>::empty());
    lemma_letters_11(Seq::<char>::empty());
    lemma_letters_15(text::dec(rn) + ("] = oa;"@ + (" }"@ + ("\n"@ + (Seq::<char>::empty())))));
    lemma_letters_16(x.text() + (" + 4, ctx->r["@ + (text::dec(second) + ("]);"@ + (" ctx->r["@ + (text::dec(rn) + ("] = oa;"@ + (" }"@ + ("\n"@ + (Seq::<char>::empty()))))))))));
    reveal_strlit("\n");
    assert(text::fill("    mem_write32(ctx, {}, ctx->r[{}]); mem_write32(ctx, {} + 4, ctx->r[{}]);{} }"@, seq![x.text(), text::dec(rd), x.text(), text::dec(second), text::fill(" ctx->r[{}] = oa;"@, seq![text::dec(rn)])]).push('\n') =~= text::fill("    mem_write32(ctx, {}, ctx->r[{}]); mem_write32(ctx, {} + 4, ctx->r[{}]);{} }"@, seq![x.text(), text::dec(rd), x.text(), text::dec(second), text::fill(" ctx->r[{}] = oa;"@, seq![text::dec(rn)])]) + ("\n"@ + Seq::<char>::empty()));
    assert(write_pair_back_line(x, rn, rd, second).text() == text::fill("    mem_write32(ctx, {}, ctx->r[{}]); mem_write32(ctx, {} + 4, ctx->r[{}]);{} }"@, seq![x.text(), text::dec(rd), x.text(), text::dec(second), text::fill(" ctx->r[{}] = oa;"@, seq![text::dec(rn)])]).push('\n'));
}

proof fn lemma_letters_17(rest: Seq<char>)
    ensures
        "); "@ + ("ctx->r["@ + (rest)) == ");"@ + (""@ + (" ctx->r["@ + (rest))),
{
    reveal_strlit("); ");
    reveal_strlit("ctx->r[");
    reveal_strlit(");");
    reveal_strlit("");
    reveal_strlit(" ctx->r[");
    assert("); "@ + ("ctx->r["@ + (rest)) =~= ");"@ + (""@ + (" ctx->r["@ + (rest))));
}

pub open spec fn read_half_line(x: Expression, rd: nat) -> Program {
    Program::Then(
        Layout::First,
        Statement::Declare(Type::U32, Declared::One(Name::V, Expression::Load(16, Box::new(x)))),
        Box::new(Program::Then(
        Layout::Middle,
        Statement::Assign(Place::Register(rd), Expression::Local(Name::V)),
        Box::new(Program::Then(
        Layout::Last,
        Statement::Close,
        Box::new(Program::End),
    )),
    )),
    )
}

pub proof fn lemma_read_half_line(x: Expression, rd: nat)
    requires
        x.grouped(),
    ensures
        read_half_line(x, rd).text() == text::fill("    uint32_t v = mem_read16(ctx, {});{} ctx->r[{}] = v; }"@, seq![x.text(), ""@, text::dec(rd)]).push('\n'),
        read_half_line(x, rd).grouped(),
{
    reveal_with_fuel(Program::text, 4);
    reveal_with_fuel(Program::grouped, 4);
    lemma_statement_6(Seq::<char>::empty());
    lemma_statement_12(rd, "}\n"@ + (Seq::<char>::empty()));
    lemma_statement_14(x, "ctx->r["@ + (text::dec(rd) + ("] = v; "@ + ("}\n"@ + (Seq::<char>::empty())))));
    assert(""@ == ""@);
    lemma_text_9(x.text(), ""@, text::dec(rd), "\n"@ + Seq::<char>::empty());
    lemma_letters_8(Seq::<char>::empty());
    lemma_letters_17(text::dec(rd) + ("] = v; }"@ + ("\n"@ + (Seq::<char>::empty()))));
    reveal_strlit("\n");
    assert(text::fill("    uint32_t v = mem_read16(ctx, {});{} ctx->r[{}] = v; }"@, seq![x.text(), ""@, text::dec(rd)]).push('\n') =~= text::fill("    uint32_t v = mem_read16(ctx, {});{} ctx->r[{}] = v; }"@, seq![x.text(), ""@, text::dec(rd)]) + ("\n"@ + Seq::<char>::empty()));
    assert(read_half_line(x, rd).text() == text::fill("    uint32_t v = mem_read16(ctx, {});{} ctx->r[{}] = v; }"@, seq![x.text(), ""@, text::dec(rd)]).push('\n'));
}

pub open spec fn read_signed_byte_line(x: Expression, rd: nat) -> Program {
    Program::Then(
        Layout::First,
        Statement::Declare(Type::U32, Declared::One(Name::V, Expression::Cast(Type::U32, Box::new(Expression::Cast(Type::I32, Box::new(Expression::Cast(Type::I8, Box::new(Expression::Load(8, Box::new(x)))))))))),
        Box::new(Program::Then(
        Layout::Middle,
        Statement::Assign(Place::Register(rd), Expression::Local(Name::V)),
        Box::new(Program::Then(
        Layout::Last,
        Statement::Close,
        Box::new(Program::End),
    )),
    )),
    )
}

pub proof fn lemma_read_signed_byte_line(x: Expression, rd: nat)
    requires
        x.grouped(),
    ensures
        read_signed_byte_line(x, rd).text() == text::fill("    uint32_t v = (uint32_t)(int32_t)(int8_t)mem_read8(ctx, {});{} ctx->r[{}] = v; }"@, seq![x.text(), ""@, text::dec(rd)]).push('\n'),
        read_signed_byte_line(x, rd).grouped(),
{
    reveal_with_fuel(Program::text, 4);
    reveal_with_fuel(Program::grouped, 4);
    lemma_statement_6(Seq::<char>::empty());
    lemma_statement_12(rd, "}\n"@ + (Seq::<char>::empty()));
    lemma_statement_15(x, "ctx->r["@ + (text::dec(rd) + ("] = v; "@ + ("}\n"@ + (Seq::<char>::empty())))));
    assert(""@ == ""@);
    lemma_text_11(x.text(), ""@, text::dec(rd), "\n"@ + Seq::<char>::empty());
    lemma_letters_8(Seq::<char>::empty());
    lemma_letters_17(text::dec(rd) + ("] = v; }"@ + ("\n"@ + (Seq::<char>::empty()))));
    reveal_strlit("\n");
    assert(text::fill("    uint32_t v = (uint32_t)(int32_t)(int8_t)mem_read8(ctx, {});{} ctx->r[{}] = v; }"@, seq![x.text(), ""@, text::dec(rd)]).push('\n') =~= text::fill("    uint32_t v = (uint32_t)(int32_t)(int8_t)mem_read8(ctx, {});{} ctx->r[{}] = v; }"@, seq![x.text(), ""@, text::dec(rd)]) + ("\n"@ + Seq::<char>::empty()));
    assert(read_signed_byte_line(x, rd).text() == text::fill("    uint32_t v = (uint32_t)(int32_t)(int8_t)mem_read8(ctx, {});{} ctx->r[{}] = v; }"@, seq![x.text(), ""@, text::dec(rd)]).push('\n'));
}

pub open spec fn read_signed_half_line(x: Expression, rd: nat) -> Program {
    Program::Then(
        Layout::First,
        Statement::Declare(Type::U32, Declared::One(Name::V, Expression::Cast(Type::U32, Box::new(Expression::Cast(Type::I32, Box::new(Expression::Cast(Type::I16, Box::new(Expression::Load(16, Box::new(x)))))))))),
        Box::new(Program::Then(
        Layout::Middle,
        Statement::Assign(Place::Register(rd), Expression::Local(Name::V)),
        Box::new(Program::Then(
        Layout::Last,
        Statement::Close,
        Box::new(Program::End),
    )),
    )),
    )
}

pub proof fn lemma_read_signed_half_line(x: Expression, rd: nat)
    requires
        x.grouped(),
    ensures
        read_signed_half_line(x, rd).text() == text::fill("    uint32_t v = (uint32_t)(int32_t)(int16_t)mem_read16(ctx, {});{} ctx->r[{}] = v; }"@, seq![x.text(), ""@, text::dec(rd)]).push('\n'),
        read_signed_half_line(x, rd).grouped(),
{
    reveal_with_fuel(Program::text, 4);
    reveal_with_fuel(Program::grouped, 4);
    lemma_statement_6(Seq::<char>::empty());
    lemma_statement_12(rd, "}\n"@ + (Seq::<char>::empty()));
    lemma_statement_16(x, "ctx->r["@ + (text::dec(rd) + ("] = v; "@ + ("}\n"@ + (Seq::<char>::empty())))));
    assert(""@ == ""@);
    lemma_text_12(x.text(), ""@, text::dec(rd), "\n"@ + Seq::<char>::empty());
    lemma_letters_8(Seq::<char>::empty());
    lemma_letters_17(text::dec(rd) + ("] = v; }"@ + ("\n"@ + (Seq::<char>::empty()))));
    reveal_strlit("\n");
    assert(text::fill("    uint32_t v = (uint32_t)(int32_t)(int16_t)mem_read16(ctx, {});{} ctx->r[{}] = v; }"@, seq![x.text(), ""@, text::dec(rd)]).push('\n') =~= text::fill("    uint32_t v = (uint32_t)(int32_t)(int16_t)mem_read16(ctx, {});{} ctx->r[{}] = v; }"@, seq![x.text(), ""@, text::dec(rd)]) + ("\n"@ + Seq::<char>::empty()));
    assert(read_signed_half_line(x, rd).text() == text::fill("    uint32_t v = (uint32_t)(int32_t)(int16_t)mem_read16(ctx, {});{} ctx->r[{}] = v; }"@, seq![x.text(), ""@, text::dec(rd)]).push('\n'));
}

proof fn lemma_letters_18(rest: Seq<char>)
    ensures
        "); "@ + ("}\n"@ + (rest)) == ");"@ + (""@ + (" }"@ + ("\n"@ + (rest)))),
{
    reveal_strlit("); ");
    reveal_strlit("}\n");
    reveal_strlit(");");
    reveal_strlit("");
    reveal_strlit(" }");
    reveal_strlit("\n");
    assert("); "@ + ("}\n"@ + (rest)) =~= ");"@ + (""@ + (" }"@ + ("\n"@ + (rest)))));
}

pub open spec fn write_half_line(x: Expression, y: Expression) -> Program {
    Program::Then(
        Layout::First,
        Statement::Store(16, x, Expression::Cast(Type::U16, Box::new(y))),
        Box::new(Program::Then(
        Layout::Last,
        Statement::Close,
        Box::new(Program::End),
    )),
    )
}

pub proof fn lemma_write_half_line(x: Expression, y: Expression)
    requires
        x.grouped(),
        y.grouped(),
        y.strength() >= 15,
    ensures
        write_half_line(x, y).text() == text::fill("    mem_write16(ctx, {}, (uint16_t){});{} }"@, seq![x.text(), y.text(), ""@]).push('\n'),
        write_half_line(x, y).grouped(),
{
    reveal_with_fuel(Program::text, 3);
    reveal_with_fuel(Program::grouped, 3);
    lemma_statement_6(Seq::<char>::empty());
    lemma_statement_17(x, y, "}\n"@ + (Seq::<char>::empty()));
    assert(""@ == ""@);
    lemma_text_13(x.text(), y.text(), ""@, "\n"@ + Seq::<char>::empty());
    lemma_letters_18(Seq::<char>::empty());
    reveal_strlit("\n");
    assert(text::fill("    mem_write16(ctx, {}, (uint16_t){});{} }"@, seq![x.text(), y.text(), ""@]).push('\n') =~= text::fill("    mem_write16(ctx, {}, (uint16_t){});{} }"@, seq![x.text(), y.text(), ""@]) + ("\n"@ + Seq::<char>::empty()));
    assert(write_half_line(x, y).text() == text::fill("    mem_write16(ctx, {}, (uint16_t){});{} }"@, seq![x.text(), y.text(), ""@]).push('\n'));
}

proof fn lemma_letters_19(rest: Seq<char>)
    ensures
        " + 4); "@ + ("ctx->r["@ + (rest)) == " + 4);"@ + (""@ + (" ctx->r["@ + (rest))),
{
    reveal_strlit(" + 4); ");
    reveal_strlit("ctx->r[");
    reveal_strlit(" + 4);");
    reveal_strlit("");
    reveal_strlit(" ctx->r[");
    assert(" + 4); "@ + ("ctx->r["@ + (rest)) =~= " + 4);"@ + (""@ + (" ctx->r["@ + (rest))));
}

pub open spec fn read_pair_line(x: Expression, rd: nat, second: nat) -> Program {
    Program::Then(
        Layout::First,
        Statement::Declare(Type::U32, Declared::More(Name::Lo, Expression::Load(32, Box::new(x)), Box::new(Declared::One(Name::Hi, Expression::Load(32, Box::new(Expression::Two(Operator::Plus, Box::new(x), Box::new(Expression::Int(4))))))))),
        Box::new(Program::Then(
        Layout::Middle,
        Statement::Assign(Place::Register(rd), Expression::Local(Name::Lo)),
        Box::new(Program::Then(
        Layout::Middle,
        Statement::Assign(Place::Register(second), Expression::Local(Name::Hi)),
        Box::new(Program::Then(
        Layout::Last,
        Statement::Close,
        Box::new(Program::End),
    )),
    )),
    )),
    )
}

pub proof fn lemma_read_pair_line(x: Expression, rd: nat, second: nat)
    requires
        x.grouped(),
        x.strength() == 16,
    ensures
        read_pair_line(x, rd, second).text() == text::fill("    uint32_t lo = mem_read32(ctx, {}), hi = mem_read32(ctx, {} + 4);{} ctx->r[{}] = lo; ctx->r[{}] = hi; }"@, seq![x.text(), x.text(), ""@, text::dec(rd), text::dec(second)]).push('\n'),
        read_pair_line(x, rd, second).grouped(),
{
    reveal_with_fuel(Program::text, 5);
    reveal_with_fuel(Program::grouped, 5);
    lemma_statement_6(Seq::<char>::empty());
    lemma_statement_18(second, "}\n"@ + (Seq::<char>::empty()));
    lemma_statement_19(rd, "ctx->r["@ + (text::dec(second) + ("] = hi; "@ + ("}\n"@ + (Seq::<char>::empty())))));
    lemma_statement_20(x, "ctx->r["@ + (text::dec(rd) + ("] = lo; "@ + ("ctx->r["@ + (text::dec(second) + ("] = hi; "@ + ("}\n"@ + (Seq::<char>::empty()))))))));
    assert(""@ == ""@);
    lemma_text_14(x.text(), x.text(), ""@, text::dec(rd), text::dec(second), "\n"@ + Seq::<char>::empty());
    lemma_letters_12(Seq::<char>::empty());
    lemma_letters_13(text::dec(second) + ("] = hi; }"@ + ("\n"@ + (Seq::<char>::empty()))));
    lemma_letters_19(text::dec(rd) + ("] = lo; ctx->r["@ + (text::dec(second) + ("] = hi; }"@ + ("\n"@ + (Seq::<char>::empty()))))));
    reveal_strlit("\n");
    assert(text::fill("    uint32_t lo = mem_read32(ctx, {}), hi = mem_read32(ctx, {} + 4);{} ctx->r[{}] = lo; ctx->r[{}] = hi; }"@, seq![x.text(), x.text(), ""@, text::dec(rd), text::dec(second)]).push('\n') =~= text::fill("    uint32_t lo = mem_read32(ctx, {}), hi = mem_read32(ctx, {} + 4);{} ctx->r[{}] = lo; ctx->r[{}] = hi; }"@, seq![x.text(), x.text(), ""@, text::dec(rd), text::dec(second)]) + ("\n"@ + Seq::<char>::empty()));
    assert(read_pair_line(x, rd, second).text() == text::fill("    uint32_t lo = mem_read32(ctx, {}), hi = mem_read32(ctx, {} + 4);{} ctx->r[{}] = lo; ctx->r[{}] = hi; }"@, seq![x.text(), x.text(), ""@, text::dec(rd), text::dec(second)]).push('\n'));
}

proof fn lemma_letters_20(rest: Seq<char>)
    ensures
        "]); "@ + ("}\n"@ + (rest)) == "]);"@ + (""@ + (" }"@ + ("\n"@ + (rest)))),
{
    reveal_strlit("]); ");
    reveal_strlit("}\n");
    reveal_strlit("]);");
    reveal_strlit("");
    reveal_strlit(" }");
    reveal_strlit("\n");
    assert("]); "@ + ("}\n"@ + (rest)) =~= "]);"@ + (""@ + (" }"@ + ("\n"@ + (rest)))));
}

pub open spec fn write_pair_line(x: Expression, rd: nat, second: nat) -> Program {
    Program::Then(
        Layout::First,
        Statement::Store(32, x, Expression::Register(rd)),
        Box::new(Program::Then(
        Layout::Middle,
        Statement::Store(32, Expression::Two(Operator::Plus, Box::new(x), Box::new(Expression::Int(4))), Expression::Register(second)),
        Box::new(Program::Then(
        Layout::Last,
        Statement::Close,
        Box::new(Program::End),
    )),
    )),
    )
}

pub proof fn lemma_write_pair_line(x: Expression, rd: nat, second: nat)
    requires
        x.grouped(),
        x.strength() == 16,
    ensures
        write_pair_line(x, rd, second).text() == text::fill("    mem_write32(ctx, {}, ctx->r[{}]); mem_write32(ctx, {} + 4, ctx->r[{}]);{} }"@, seq![x.text(), text::dec(rd), x.text(), text::dec(second), ""@]).push('\n'),
        write_pair_line(x, rd, second).grouped(),
{
    reveal_with_fuel(Program::text, 4);
    reveal_with_fuel(Program::grouped, 4);
    lemma_statement_6(Seq::<char>::empty());
    lemma_statement_21(x, second, "}\n"@ + (Seq::<char>::empty()));
    lemma_statement_22(x, rd, "mem_write32(ctx, "@ + (x.text() + (" + 4, ctx->r["@ + (text::dec(second) + ("]); "@ + ("}\n"@ + (Seq::<char>::empty())))))));
    assert(""@ == ""@);
    lemma_text_15(x.text(), text::dec(rd), x.text(), text::dec(second), ""@, "\n"@ + Seq::<char>::empty());
    lemma_letters_20(Seq::<char>::empty());
    lemma_letters_16(x.text() + (" + 4, ctx->r["@ + (text::dec(second) + ("]);"@ + (""@ + (" }"@ + ("\n"@ + (Seq::<char>::empty()))))))));
    reveal_strlit("\n");
    assert(text::fill("    mem_write32(ctx, {}, ctx->r[{}]); mem_write32(ctx, {} + 4, ctx->r[{}]);{} }"@, seq![x.text(), text::dec(rd), x.text(), text::dec(second), ""@]).push('\n') =~= text::fill("    mem_write32(ctx, {}, ctx->r[{}]); mem_write32(ctx, {} + 4, ctx->r[{}]);{} }"@, seq![x.text(), text::dec(rd), x.text(), text::dec(second), ""@]) + ("\n"@ + Seq::<char>::empty()));
    assert(write_pair_line(x, rd, second).text() == text::fill("    mem_write32(ctx, {}, ctx->r[{}]); mem_write32(ctx, {} + 4, ctx->r[{}]);{} }"@, seq![x.text(), text::dec(rd), x.text(), text::dec(second), ""@]).push('\n'));
}

proof fn lemma_text_16(x0: Seq<char>, x1: Seq<char>, rest: Seq<char>)
    ensures
        text::fill("({} << {})"@, seq![x0, x1]) + rest == "("@ + (x0 + (" << "@ + (x1 + (")"@ + (rest))))),
{
    reveal_strlit("({} << {})");
    reveal_strlit("{}");
    reveal_strlit("(");
    reveal_strlit(" << ");
    reveal_strlit(")");
    assert("({} << {})"@ =~= "("@ + "{}"@ + (" << "@ + "{}"@ + (")"@)));
    let args_0 = seq![x0, x1];
    let args_1 = seq![x1];
    let args_2 = Seq::<Seq<char>>::empty();
    assert(args_0.skip(1) =~= args_1);
    assert(args_1.skip(1) =~= args_2);
    lemma_hole("("@, " << "@ + "{}"@ + (")"@), args_0);
    lemma_hole(" << "@, ")"@, args_1);
    lemma_plain(")"@);
    assert(text::fill("({} << {})"@, seq![x0, x1]) + rest =~= "("@ + (x0 + (" << "@ + (x1 + (")"@ + (rest))))));
}

pub open spec fn left_offset(x: Expression, n: nat) -> Expression {
    Expression::Group(Box::new(Expression::Two(Operator::Left, Box::new(x), Box::new(Expression::Int(n)))))
}

pub proof fn lemma_left_offset(x: Expression, n: nat)
    requires
        x.grouped(),
        x.strength() == 16,
    ensures
        left_offset(x, n).text() == text::fill("({} << {})"@, seq![x.text(), text::dec(n)]),
        left_offset(x, n).grouped(),
{
    reveal_strlit(" << ");
    reveal_strlit("(");
    reveal_strlit(")");
    small_c::lemma_numbers();
    lemma_text_16(x.text(), text::dec(n), Seq::<char>::empty());
    reveal_with_fuel(Expression::text, 4);
    reveal_with_fuel(Expression::grouped, 4);
    let whole = text::fill("({} << {})"@, seq![x.text(), text::dec(n)]) + Seq::<char>::empty();
    assert(whole =~= text::fill("({} << {})"@, seq![x.text(), text::dec(n)]));
    assert(left_offset(x, n).text() =~= whole);
}

proof fn lemma_text_17(x0: Seq<char>, x1: Seq<char>, rest: Seq<char>)
    ensures
        text::fill("({} >> {})"@, seq![x0, x1]) + rest == "("@ + (x0 + (" >> "@ + (x1 + (")"@ + (rest))))),
{
    reveal_strlit("({} >> {})");
    reveal_strlit("{}");
    reveal_strlit("(");
    reveal_strlit(" >> ");
    reveal_strlit(")");
    assert("({} >> {})"@ =~= "("@ + "{}"@ + (" >> "@ + "{}"@ + (")"@)));
    let args_0 = seq![x0, x1];
    let args_1 = seq![x1];
    let args_2 = Seq::<Seq<char>>::empty();
    assert(args_0.skip(1) =~= args_1);
    assert(args_1.skip(1) =~= args_2);
    lemma_hole("("@, " >> "@ + "{}"@ + (")"@), args_0);
    lemma_hole(" >> "@, ")"@, args_1);
    lemma_plain(")"@);
    assert(text::fill("({} >> {})"@, seq![x0, x1]) + rest =~= "("@ + (x0 + (" >> "@ + (x1 + (")"@ + (rest))))));
}

pub open spec fn right_offset(x: Expression, n: nat) -> Expression {
    Expression::Group(Box::new(Expression::Two(Operator::Right, Box::new(x), Box::new(Expression::Int(n)))))
}

pub proof fn lemma_right_offset(x: Expression, n: nat)
    requires
        x.grouped(),
        x.strength() == 16,
    ensures
        right_offset(x, n).text() == text::fill("({} >> {})"@, seq![x.text(), text::dec(n)]),
        right_offset(x, n).grouped(),
{
    reveal_strlit(" >> ");
    reveal_strlit("(");
    reveal_strlit(")");
    small_c::lemma_numbers();
    lemma_text_17(x.text(), text::dec(n), Seq::<char>::empty());
    reveal_with_fuel(Expression::text, 4);
    reveal_with_fuel(Expression::grouped, 4);
    let whole = text::fill("({} >> {})"@, seq![x.text(), text::dec(n)]) + Seq::<char>::empty();
    assert(whole =~= text::fill("({} >> {})"@, seq![x.text(), text::dec(n)]));
    assert(right_offset(x, n).text() =~= whole);
}

proof fn lemma_text_18(x0: Seq<char>, x1: Seq<char>, rest: Seq<char>)
    ensures
        text::fill("(uint32_t)((int32_t){} >> {})"@, seq![x0, x1]) + rest == "(uint32_t)((int32_t)"@ + (x0 + (" >> "@ + (x1 + (")"@ + (rest))))),
{
    reveal_strlit("(uint32_t)((int32_t){} >> {})");
    reveal_strlit("{}");
    reveal_strlit("(uint32_t)((int32_t)");
    reveal_strlit(" >> ");
    reveal_strlit(")");
    assert("(uint32_t)((int32_t){} >> {})"@ =~= "(uint32_t)((int32_t)"@ + "{}"@ + (" >> "@ + "{}"@ + (")"@)));
    let args_0 = seq![x0, x1];
    let args_1 = seq![x1];
    let args_2 = Seq::<Seq<char>>::empty();
    assert(args_0.skip(1) =~= args_1);
    assert(args_1.skip(1) =~= args_2);
    lemma_hole("(uint32_t)((int32_t)"@, " >> "@ + "{}"@ + (")"@), args_0);
    lemma_hole(" >> "@, ")"@, args_1);
    lemma_plain(")"@);
    assert(text::fill("(uint32_t)((int32_t){} >> {})"@, seq![x0, x1]) + rest =~= "(uint32_t)((int32_t)"@ + (x0 + (" >> "@ + (x1 + (")"@ + (rest))))));
}

pub open spec fn signed_offset(x: Expression, n: nat) -> Expression {
    Expression::Cast(Type::U32, Box::new(Expression::Group(Box::new(Expression::Two(Operator::Right, Box::new(Expression::Cast(Type::I32, Box::new(x))), Box::new(Expression::Int(n)))))))
}

#[verifier::rlimit(60)]
pub proof fn lemma_signed_offset(x: Expression, n: nat)
    requires
        x.grouped(),
        x.strength() == 16,
    ensures
        signed_offset(x, n).text() == text::fill("(uint32_t)((int32_t){} >> {})"@, seq![x.text(), text::dec(n)]),
        signed_offset(x, n).grouped(),
{
    reveal_strlit(" >> ");
    reveal_strlit("(");
    reveal_strlit("(uint32_t)((int32_t)");
    reveal_strlit(")");
    reveal_strlit("int32_t");
    reveal_strlit("uint32_t");
    small_c::lemma_numbers();
    lemma_text_18(x.text(), text::dec(n), Seq::<char>::empty());
    reveal_with_fuel(Expression::text, 5);
    reveal_with_fuel(Expression::grouped, 5);
    let whole = text::fill("(uint32_t)((int32_t){} >> {})"@, seq![x.text(), text::dec(n)]) + Seq::<char>::empty();
    assert(whole =~= text::fill("(uint32_t)((int32_t){} >> {})"@, seq![x.text(), text::dec(n)]));
    assert(signed_offset(x, n).text() =~= whole);
}

proof fn lemma_text_19(x0: Seq<char>, rest: Seq<char>)
    ensures
        text::fill("(uint32_t)((int32_t){} >> 31)"@, seq![x0]) + rest == "(uint32_t)((int32_t)"@ + (x0 + (" >> 31)"@ + (rest))),
{
    reveal_strlit("(uint32_t)((int32_t){} >> 31)");
    reveal_strlit("{}");
    reveal_strlit("(uint32_t)((int32_t)");
    reveal_strlit(" >> 31)");
    assert("(uint32_t)((int32_t){} >> 31)"@ =~= "(uint32_t)((int32_t)"@ + "{}"@ + (" >> 31)"@));
    let args_0 = seq![x0];
    let args_1 = Seq::<Seq<char>>::empty();
    assert(args_0.skip(1) =~= args_1);
    lemma_hole("(uint32_t)((int32_t)"@, " >> 31)"@, args_0);
    lemma_plain(" >> 31)"@);
    assert(text::fill("(uint32_t)((int32_t){} >> 31)"@, seq![x0]) + rest =~= "(uint32_t)((int32_t)"@ + (x0 + (" >> 31)"@ + (rest))));
}

pub open spec fn all_signed_offset(x: Expression) -> Expression {
    Expression::Cast(Type::U32, Box::new(Expression::Group(Box::new(Expression::Two(Operator::Right, Box::new(Expression::Cast(Type::I32, Box::new(x))), Box::new(Expression::Int(31)))))))
}

#[verifier::rlimit(60)]
pub proof fn lemma_all_signed_offset(x: Expression)
    requires
        x.grouped(),
        x.strength() == 16,
    ensures
        all_signed_offset(x).text() == text::fill("(uint32_t)((int32_t){} >> 31)"@, seq![x.text()]),
        all_signed_offset(x).grouped(),
{
    reveal_strlit(" >> ");
    reveal_strlit(" >> 31)");
    reveal_strlit("(");
    reveal_strlit("(uint32_t)((int32_t)");
    reveal_strlit(")");
    reveal_strlit("31");
    reveal_strlit("int32_t");
    reveal_strlit("uint32_t");
    small_c::lemma_numbers();
    lemma_text_19(x.text(), Seq::<char>::empty());
    reveal_with_fuel(Expression::text, 5);
    reveal_with_fuel(Expression::grouped, 5);
    let whole = text::fill("(uint32_t)((int32_t){} >> 31)"@, seq![x.text()]) + Seq::<char>::empty();
    assert(whole =~= text::fill("(uint32_t)((int32_t){} >> 31)"@, seq![x.text()]));
    assert(all_signed_offset(x).text() =~= whole);
}

proof fn lemma_text_20(x0: Seq<char>, rest: Seq<char>)
    ensures
        text::fill("(((uint32_t)ctx->c << 31) | ({} >> 1))"@, seq![x0]) + rest == "(((uint32_t)ctx->c << 31) | ("@ + (x0 + (" >> 1))"@ + (rest))),
{
    reveal_strlit("(((uint32_t)ctx->c << 31) | ({} >> 1))");
    reveal_strlit("{}");
    reveal_strlit("(((uint32_t)ctx->c << 31) | (");
    reveal_strlit(" >> 1))");
    assert("(((uint32_t)ctx->c << 31) | ({} >> 1))"@ =~= "(((uint32_t)ctx->c << 31) | ("@ + "{}"@ + (" >> 1))"@));
    let args_0 = seq![x0];
    let args_1 = Seq::<Seq<char>>::empty();
    assert(args_0.skip(1) =~= args_1);
    lemma_hole("(((uint32_t)ctx->c << 31) | ("@, " >> 1))"@, args_0);
    lemma_plain(" >> 1))"@);
    assert(text::fill("(((uint32_t)ctx->c << 31) | ({} >> 1))"@, seq![x0]) + rest =~= "(((uint32_t)ctx->c << 31) | ("@ + (x0 + (" >> 1))"@ + (rest))));
}

pub open spec fn through_offset(x: Expression) -> Expression {
    Expression::Group(Box::new(Expression::Two(Operator::Or, Box::new(Expression::Group(Box::new(Expression::Two(Operator::Left, Box::new(Expression::Cast(Type::U32, Box::new(Expression::Field(Field::C)))), Box::new(Expression::Int(31)))))), Box::new(Expression::Group(Box::new(Expression::Two(Operator::Right, Box::new(x), Box::new(Expression::Int(1)))))))))
}

#[verifier::rlimit(60)]
#[verifier::rlimit(60)]
pub proof fn lemma_through_offset(x: Expression)
    requires
        x.grouped(),
        x.strength() == 16,
    ensures
        through_offset(x).text() == text::fill("(((uint32_t)ctx->c << 31) | ({} >> 1))"@, seq![x.text()]),
        through_offset(x).grouped(),
{
    reveal_strlit(" << ");
    reveal_strlit(" >> ");
    reveal_strlit(" >> 1))");
    reveal_strlit(" | ");
    reveal_strlit("(");
    reveal_strlit("(((uint32_t)ctx->c << 31) | (");
    reveal_strlit(")");
    reveal_strlit("1");
    reveal_strlit("31");
    reveal_strlit("ctx->c");
    reveal_strlit("uint32_t");
    small_c::lemma_numbers();
    lemma_text_20(x.text(), Seq::<char>::empty());
    reveal_with_fuel(Expression::text, 7);
    reveal_with_fuel(Expression::grouped, 7);
    let whole = text::fill("(((uint32_t)ctx->c << 31) | ({} >> 1))"@, seq![x.text()]) + Seq::<char>::empty();
    assert(whole =~= text::fill("(((uint32_t)ctx->c << 31) | ({} >> 1))"@, seq![x.text()]));
    assert(through_offset(x).text() =~= whole);
}

proof fn lemma_text_21(x0: Seq<char>, x1: Seq<char>, rest: Seq<char>)
    ensures
        text::fill("ror32({}, {})"@, seq![x0, x1]) + rest == "ror32("@ + (x0 + (", "@ + (x1 + (")"@ + (rest))))),
{
    reveal_strlit("ror32({}, {})");
    reveal_strlit("{}");
    reveal_strlit("ror32(");
    reveal_strlit(", ");
    reveal_strlit(")");
    assert("ror32({}, {})"@ =~= "ror32("@ + "{}"@ + (", "@ + "{}"@ + (")"@)));
    let args_0 = seq![x0, x1];
    let args_1 = seq![x1];
    let args_2 = Seq::<Seq<char>>::empty();
    assert(args_0.skip(1) =~= args_1);
    assert(args_1.skip(1) =~= args_2);
    lemma_hole("ror32("@, ", "@ + "{}"@ + (")"@), args_0);
    lemma_hole(", "@, ")"@, args_1);
    lemma_plain(")"@);
    assert(text::fill("ror32({}, {})"@, seq![x0, x1]) + rest =~= "ror32("@ + (x0 + (", "@ + (x1 + (")"@ + (rest))))));
}

pub open spec fn around_offset(x: Expression, n: nat) -> Expression {
    Expression::Call2(Function::Ror, Box::new(x), Box::new(Expression::Int(n)))
}

pub proof fn lemma_around_offset(x: Expression, n: nat)
    requires
        x.grouped(),
        x.strength() == 16,
    ensures
        around_offset(x, n).text() == text::fill("ror32({}, {})"@, seq![x.text(), text::dec(n)]),
        around_offset(x, n).grouped(),
{
    reveal_strlit(")");
    reveal_strlit(", ");
    reveal_strlit("ror32(");
    small_c::lemma_numbers();
    lemma_text_21(x.text(), text::dec(n), Seq::<char>::empty());
    reveal_with_fuel(Expression::text, 3);
    reveal_with_fuel(Expression::grouped, 3);
    let whole = text::fill("ror32({}, {})"@, seq![x.text(), text::dec(n)]) + Seq::<char>::empty();
    assert(whole =~= text::fill("ror32({}, {})"@, seq![x.text(), text::dec(n)]));
    assert(around_offset(x, n).text() =~= whole);
}

proof fn lemma_text_22(x0: Seq<char>, rest: Seq<char>)
    ensures
        text::fill("0x{}u"@, seq![x0]) + rest == "0x"@ + (x0 + ("u"@ + (rest))),
{
    reveal_strlit("0x{}u");
    reveal_strlit("{}");
    reveal_strlit("0x");
    reveal_strlit("u");
    assert("0x{}u"@ =~= "0x"@ + "{}"@ + ("u"@));
    let args_0 = seq![x0];
    let args_1 = Seq::<Seq<char>>::empty();
    assert(args_0.skip(1) =~= args_1);
    lemma_hole("0x"@, "u"@, args_0);
    lemma_plain("u"@);
    assert(text::fill("0x{}u"@, seq![x0]) + rest =~= "0x"@ + (x0 + ("u"@ + (rest))));
}

pub open spec fn plain_offset(n: nat) -> Expression {
    Expression::Hex { number: n, width: 0, unsigned: true }
}

pub proof fn lemma_plain_offset(n: nat)
    ensures
        plain_offset(n).text() == text::fill("0x{}u"@, seq![text::hex(n)]),
        plain_offset(n).grouped(),
{
    reveal_strlit("0x");
    reveal_strlit("u");
    small_c::lemma_numbers();
    assert(text::hex_wide(n, 0) =~= text::hex(n));
    lemma_text_22(text::hex(n), Seq::<char>::empty());
    reveal_with_fuel(Expression::text, 2);
    reveal_with_fuel(Expression::grouped, 2);
    let whole = text::fill("0x{}u"@, seq![text::hex(n)]) + Seq::<char>::empty();
    assert(whole =~= text::fill("0x{}u"@, seq![text::hex(n)]));
    assert(plain_offset(n).text() =~= whole);
}

} // verus!
