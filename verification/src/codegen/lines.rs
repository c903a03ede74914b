//! the lines and expressions that the C for ARM data processing instructions is
//! made of.

use crate::codegen::small_c;
use crate::codegen::small_c::{
    lemma_hole, lemma_plain, Declared, Expression, Field, Layout, Name, Operator, Place, Program, Shift, Statement,
    Type,
};
use crate::text;
use vstd::prelude::*;

verus! {

proof fn lemma_statement_0(rest: Seq<char>)
    ensures
        Layout::Alone.around(Statement::Open.text()) + rest == "    {\n"@ + (rest),
        Statement::Open.grouped(),
{
    reveal_strlit("\n");
    reveal_strlit("    ");
    reveal_strlit("    {\n");
    reveal_strlit("{");
    small_c::lemma_numbers();
    reveal(Statement::text);
    reveal(Statement::grouped);
    reveal_with_fuel(Expression::text, 2);
    reveal_with_fuel(Expression::grouped, 2);
    assert(Layout::Alone.around(Statement::Open.text()) + rest =~= "    {\n"@ + (rest));
}

proof fn lemma_text_0(rest: Seq<char>)
    ensures
        text::fill("    {"@, Seq::<Seq<char>>::empty()) + rest == "    {"@ + (rest),
{
    lemma_plain("    {"@);
    assert(text::fill("    {"@, Seq::<Seq<char>>::empty()) + rest =~= "    {"@ + (rest));
}

proof fn lemma_letters_0(rest: Seq<char>)
    ensures
        "    {\n"@ + (rest) == "    {"@ + ("\n"@ + (rest)),
{
    reveal_strlit("    {\n");
    reveal_strlit("    {");
    reveal_strlit("\n");
    assert("    {\n"@ + (rest) =~= "    {"@ + ("\n"@ + (rest)));
}

pub open spec fn open_line() -> Program {
    Program::Then(
        Layout::Alone,
        Statement::Open,
        Box::new(Program::End),
    )
}

pub proof fn lemma_open_line()
    ensures
        open_line().text() == text::fill("    {"@, Seq::<Seq<char>>::empty()).push('\n'),
        open_line().grouped(),
{
    reveal_with_fuel(Program::text, 2);
    reveal_with_fuel(Program::grouped, 2);
    lemma_statement_0(Seq::<char>::empty());
    lemma_text_0("\n"@ + Seq::<char>::empty());
    lemma_letters_0(Seq::<char>::empty());
    reveal_strlit("\n");
    assert(text::fill("    {"@, Seq::<Seq<char>>::empty()).push('\n') =~= text::fill("    {"@, Seq::<Seq<char>>::empty()) + ("\n"@ + Seq::<char>::empty()));
    assert(open_line().text() == text::fill("    {"@, Seq::<Seq<char>>::empty()).push('\n'));
}

proof fn lemma_statement_1(rest: Seq<char>)
    ensures
        Layout::Alone.around(Statement::Close.text()) + rest == "    }\n"@ + (rest),
        Statement::Close.grouped(),
{
    reveal_strlit("\n");
    reveal_strlit("    ");
    reveal_strlit("    }\n");
    reveal_strlit("}");
    small_c::lemma_numbers();
    reveal(Statement::text);
    reveal(Statement::grouped);
    reveal_with_fuel(Expression::text, 2);
    reveal_with_fuel(Expression::grouped, 2);
    assert(Layout::Alone.around(Statement::Close.text()) + rest =~= "    }\n"@ + (rest));
}

proof fn lemma_text_1(rest: Seq<char>)
    ensures
        text::fill("    }"@, Seq::<Seq<char>>::empty()) + rest == "    }"@ + (rest),
{
    lemma_plain("    }"@);
    assert(text::fill("    }"@, Seq::<Seq<char>>::empty()) + rest =~= "    }"@ + (rest));
}

proof fn lemma_letters_1(rest: Seq<char>)
    ensures
        "    }\n"@ + (rest) == "    }"@ + ("\n"@ + (rest)),
{
    reveal_strlit("    }\n");
    reveal_strlit("    }");
    reveal_strlit("\n");
    assert("    }\n"@ + (rest) =~= "    }"@ + ("\n"@ + (rest)));
}

pub open spec fn close_line() -> Program {
    Program::Then(
        Layout::Alone,
        Statement::Close,
        Box::new(Program::End),
    )
}

pub proof fn lemma_close_line()
    ensures
        close_line().text() == text::fill("    }"@, Seq::<Seq<char>>::empty()).push('\n'),
        close_line().grouped(),
{
    reveal_with_fuel(Program::text, 2);
    reveal_with_fuel(Program::grouped, 2);
    lemma_statement_1(Seq::<char>::empty());
    lemma_text_1("\n"@ + Seq::<char>::empty());
    lemma_letters_1(Seq::<char>::empty());
    reveal_strlit("\n");
    assert(text::fill("    }"@, Seq::<Seq<char>>::empty()).push('\n') =~= text::fill("    }"@, Seq::<Seq<char>>::empty()) + ("\n"@ + Seq::<char>::empty()));
    assert(close_line().text() == text::fill("    }"@, Seq::<Seq<char>>::empty()).push('\n'));
}

proof fn lemma_statement_2(x: Expression, rest: Seq<char>)
    requires
        x.grouped(),
    ensures
        Layout::Alone.around(Statement::Declare(Type::U32, Declared::One(Name::M, x)).text()) + rest == "    uint32_t m = "@ + (x.text() + (";\n"@ + (rest))),
        Statement::Declare(Type::U32, Declared::One(Name::M, x)).grouped(),
{
    reveal_strlit("\n");
    reveal_strlit(" ");
    reveal_strlit("    ");
    reveal_strlit("    uint32_t m = ");
    reveal_strlit(" = ");
    reveal_strlit(";");
    reveal_strlit(";\n");
    reveal_strlit("m");
    reveal_strlit("uint32_t");
    small_c::lemma_numbers();
    reveal(Statement::text);
    reveal(Statement::grouped);
    reveal_with_fuel(Declared::text, 2);
    reveal_with_fuel(Declared::grouped, 2);
    reveal_with_fuel(Expression::text, 2);
    reveal_with_fuel(Expression::grouped, 2);
    assert(Layout::Alone.around(Statement::Declare(Type::U32, Declared::One(Name::M, x)).text()) + rest =~= "    uint32_t m = "@ + (x.text() + (";\n"@ + (rest))));
}

proof fn lemma_text_2(x0: Seq<char>, rest: Seq<char>)
    ensures
        text::fill("    uint32_t m = {};"@, seq![x0]) + rest == "    uint32_t m = "@ + (x0 + (";"@ + (rest))),
{
    reveal_strlit("    uint32_t m = {};");
    reveal_strlit("{}");
    reveal_strlit("    uint32_t m = ");
    reveal_strlit(";");
    assert("    uint32_t m = {};"@ =~= "    uint32_t m = "@ + "{}"@ + (";"@));
    let args_0 = seq![x0];
    let args_1 = Seq::<Seq<char>>::empty();
    assert(args_0.skip(1) =~= args_1);
    lemma_hole("    uint32_t m = "@, ";"@, args_0);
    lemma_plain(";"@);
    assert(text::fill("    uint32_t m = {};"@, seq![x0]) + rest =~= "    uint32_t m = "@ + (x0 + (";"@ + (rest))));
}

proof fn lemma_letters_2(rest: Seq<char>)
    ensures
        ";\n"@ + (rest) == ";"@ + ("\n"@ + (rest)),
{
    reveal_strlit(";\n");
    reveal_strlit(";");
    reveal_strlit("\n");
    assert(";\n"@ + (rest) =~= ";"@ + ("\n"@ + (rest)));
}

pub open spec fn m_line(x: Expression) -> Program {
    Program::Then(
        Layout::Alone,
        Statement::Declare(Type::U32, Declared::One(Name::M, x)),
        Box::new(Program::End),
    )
}

pub proof fn lemma_m_line(x: Expression)
    requires
        x.grouped(),
    ensures
        m_line(x).text() == text::fill("    uint32_t m = {};"@, seq![x.text()]).push('\n'),
        m_line(x).grouped(),
{
    reveal_with_fuel(Program::text, 2);
    reveal_with_fuel(Program::grouped, 2);
    lemma_statement_2(x, Seq::<char>::empty());
    lemma_text_2(x.text(), "\n"@ + Seq::<char>::empty());
    lemma_letters_2(Seq::<char>::empty());
    reveal_strlit("\n");
    assert(text::fill("    uint32_t m = {};"@, seq![x.text()]).push('\n') =~= text::fill("    uint32_t m = {};"@, seq![x.text()]) + ("\n"@ + Seq::<char>::empty()));
    assert(m_line(x).text() == text::fill("    uint32_t m = {};"@, seq![x.text()]).push('\n'));
}

proof fn lemma_statement_3(x: Expression, rest: Seq<char>)
    requires
        x.grouped(),
    ensures
        Layout::Alone.around(Statement::Declare(Type::U32, Declared::One(Name::B, x)).text()) + rest == "    uint32_t b = "@ + (x.text() + (";\n"@ + (rest))),
        Statement::Declare(Type::U32, Declared::One(Name::B, x)).grouped(),
{
    reveal_strlit("\n");
    reveal_strlit(" ");
    reveal_strlit("    ");
    reveal_strlit("    uint32_t b = ");
    reveal_strlit(" = ");
    reveal_strlit(";");
    reveal_strlit(";\n");
    reveal_strlit("b");
    reveal_strlit("uint32_t");
    small_c::lemma_numbers();
    reveal(Statement::text);
    reveal(Statement::grouped);
    reveal_with_fuel(Declared::text, 2);
    reveal_with_fuel(Declared::grouped, 2);
    reveal_with_fuel(Expression::text, 2);
    reveal_with_fuel(Expression::grouped, 2);
    assert(Layout::Alone.around(Statement::Declare(Type::U32, Declared::One(Name::B, x)).text()) + rest =~= "    uint32_t b = "@ + (x.text() + (";\n"@ + (rest))));
}

proof fn lemma_text_3(x0: Seq<char>, rest: Seq<char>)
    ensures
        text::fill("    uint32_t b = {};"@, seq![x0]) + rest == "    uint32_t b = "@ + (x0 + (";"@ + (rest))),
{
    reveal_strlit("    uint32_t b = {};");
    reveal_strlit("{}");
    reveal_strlit("    uint32_t b = ");
    reveal_strlit(";");
    assert("    uint32_t b = {};"@ =~= "    uint32_t b = "@ + "{}"@ + (";"@));
    let args_0 = seq![x0];
    let args_1 = Seq::<Seq<char>>::empty();
    assert(args_0.skip(1) =~= args_1);
    lemma_hole("    uint32_t b = "@, ";"@, args_0);
    lemma_plain(";"@);
    assert(text::fill("    uint32_t b = {};"@, seq![x0]) + rest =~= "    uint32_t b = "@ + (x0 + (";"@ + (rest))));
}

pub open spec fn b_line(x: Expression) -> Program {
    Program::Then(
        Layout::Alone,
        Statement::Declare(Type::U32, Declared::One(Name::B, x)),
        Box::new(Program::End),
    )
}

pub proof fn lemma_b_line(x: Expression)
    requires
        x.grouped(),
    ensures
        b_line(x).text() == text::fill("    uint32_t b = {};"@, seq![x.text()]).push('\n'),
        b_line(x).grouped(),
{
    reveal_with_fuel(Program::text, 2);
    reveal_with_fuel(Program::grouped, 2);
    lemma_statement_3(x, Seq::<char>::empty());
    lemma_text_3(x.text(), "\n"@ + Seq::<char>::empty());
    lemma_letters_2(Seq::<char>::empty());
    reveal_strlit("\n");
    assert(text::fill("    uint32_t b = {};"@, seq![x.text()]).push('\n') =~= text::fill("    uint32_t b = {};"@, seq![x.text()]) + ("\n"@ + Seq::<char>::empty()));
    assert(b_line(x).text() == text::fill("    uint32_t b = {};"@, seq![x.text()]).push('\n'));
}

proof fn lemma_statement_4(x: Expression, rest: Seq<char>)
    requires
        x.grouped(),
    ensures
        Layout::Alone.around(Statement::Declare(Type::U32, Declared::One(Name::A, x)).text()) + rest == "    uint32_t a = "@ + (x.text() + (";\n"@ + (rest))),
        Statement::Declare(Type::U32, Declared::One(Name::A, x)).grouped(),
{
    reveal_strlit("\n");
    reveal_strlit(" ");
    reveal_strlit("    ");
    reveal_strlit("    uint32_t a = ");
    reveal_strlit(" = ");
    reveal_strlit(";");
    reveal_strlit(";\n");
    reveal_strlit("a");
    reveal_strlit("uint32_t");
    small_c::lemma_numbers();
    reveal(Statement::text);
    reveal(Statement::grouped);
    reveal_with_fuel(Declared::text, 2);
    reveal_with_fuel(Declared::grouped, 2);
    reveal_with_fuel(Expression::text, 2);
    reveal_with_fuel(Expression::grouped, 2);
    assert(Layout::Alone.around(Statement::Declare(Type::U32, Declared::One(Name::A, x)).text()) + rest =~= "    uint32_t a = "@ + (x.text() + (";\n"@ + (rest))));
}

proof fn lemma_text_4(x0: Seq<char>, rest: Seq<char>)
    ensures
        text::fill("    uint32_t a = {};"@, seq![x0]) + rest == "    uint32_t a = "@ + (x0 + (";"@ + (rest))),
{
    reveal_strlit("    uint32_t a = {};");
    reveal_strlit("{}");
    reveal_strlit("    uint32_t a = ");
    reveal_strlit(";");
    assert("    uint32_t a = {};"@ =~= "    uint32_t a = "@ + "{}"@ + (";"@));
    let args_0 = seq![x0];
    let args_1 = Seq::<Seq<char>>::empty();
    assert(args_0.skip(1) =~= args_1);
    lemma_hole("    uint32_t a = "@, ";"@, args_0);
    lemma_plain(";"@);
    assert(text::fill("    uint32_t a = {};"@, seq![x0]) + rest =~= "    uint32_t a = "@ + (x0 + (";"@ + (rest))));
}

pub open spec fn a_line(x: Expression) -> Program {
    Program::Then(
        Layout::Alone,
        Statement::Declare(Type::U32, Declared::One(Name::A, x)),
        Box::new(Program::End),
    )
}

pub proof fn lemma_a_line(x: Expression)
    requires
        x.grouped(),
    ensures
        a_line(x).text() == text::fill("    uint32_t a = {};"@, seq![x.text()]).push('\n'),
        a_line(x).grouped(),
{
    reveal_with_fuel(Program::text, 2);
    reveal_with_fuel(Program::grouped, 2);
    lemma_statement_4(x, Seq::<char>::empty());
    lemma_text_4(x.text(), "\n"@ + Seq::<char>::empty());
    lemma_letters_2(Seq::<char>::empty());
    reveal_strlit("\n");
    assert(text::fill("    uint32_t a = {};"@, seq![x.text()]).push('\n') =~= text::fill("    uint32_t a = {};"@, seq![x.text()]) + ("\n"@ + Seq::<char>::empty()));
    assert(a_line(x).text() == text::fill("    uint32_t a = {};"@, seq![x.text()]).push('\n'));
}

proof fn lemma_statement_5(x: Expression, rest: Seq<char>)
    requires
        x.grouped(),
    ensures
        Layout::Alone.around(Statement::Declare(Type::U32, Declared::One(Name::R, x)).text()) + rest == "    uint32_t r = "@ + (x.text() + (";\n"@ + (rest))),
        Statement::Declare(Type::U32, Declared::One(Name::R, x)).grouped(),
{
    reveal_strlit("\n");
    reveal_strlit(" ");
    reveal_strlit("    ");
    reveal_strlit("    uint32_t r = ");
    reveal_strlit(" = ");
    reveal_strlit(";");
    reveal_strlit(";\n");
    reveal_strlit("r");
    reveal_strlit("uint32_t");
    small_c::lemma_numbers();
    reveal(Statement::text);
    reveal(Statement::grouped);
    reveal_with_fuel(Declared::text, 2);
    reveal_with_fuel(Declared::grouped, 2);
    reveal_with_fuel(Expression::text, 2);
    reveal_with_fuel(Expression::grouped, 2);
    assert(Layout::Alone.around(Statement::Declare(Type::U32, Declared::One(Name::R, x)).text()) + rest =~= "    uint32_t r = "@ + (x.text() + (";\n"@ + (rest))));
}

proof fn lemma_text_5(x0: Seq<char>, rest: Seq<char>)
    ensures
        text::fill("    uint32_t r = {};"@, seq![x0]) + rest == "    uint32_t r = "@ + (x0 + (";"@ + (rest))),
{
    reveal_strlit("    uint32_t r = {};");
    reveal_strlit("{}");
    reveal_strlit("    uint32_t r = ");
    reveal_strlit(";");
    assert("    uint32_t r = {};"@ =~= "    uint32_t r = "@ + "{}"@ + (";"@));
    let args_0 = seq![x0];
    let args_1 = Seq::<Seq<char>>::empty();
    assert(args_0.skip(1) =~= args_1);
    lemma_hole("    uint32_t r = "@, ";"@, args_0);
    lemma_plain(";"@);
    assert(text::fill("    uint32_t r = {};"@, seq![x0]) + rest =~= "    uint32_t r = "@ + (x0 + (";"@ + (rest))));
}

pub open spec fn r_line(x: Expression) -> Program {
    Program::Then(
        Layout::Alone,
        Statement::Declare(Type::U32, Declared::One(Name::R, x)),
        Box::new(Program::End),
    )
}

pub proof fn lemma_r_line(x: Expression)
    requires
        x.grouped(),
    ensures
        r_line(x).text() == text::fill("    uint32_t r = {};"@, seq![x.text()]).push('\n'),
        r_line(x).grouped(),
{
    reveal_with_fuel(Program::text, 2);
    reveal_with_fuel(Program::grouped, 2);
    lemma_statement_5(x, Seq::<char>::empty());
    lemma_text_5(x.text(), "\n"@ + Seq::<char>::empty());
    lemma_letters_2(Seq::<char>::empty());
    reveal_strlit("\n");
    assert(text::fill("    uint32_t r = {};"@, seq![x.text()]).push('\n') =~= text::fill("    uint32_t r = {};"@, seq![x.text()]) + ("\n"@ + Seq::<char>::empty()));
    assert(r_line(x).text() == text::fill("    uint32_t r = {};"@, seq![x.text()]).push('\n'));
}

proof fn lemma_statement_6(number: nat, rest: Seq<char>)
    ensures
        Layout::Alone.around(Statement::Declare(Type::U32, Declared::One(Name::B, Expression::Hex { number: number, width: 8, unsigned: true })).text()) + rest == "    uint32_t b = 0x"@ + (text::hex_wide(number, 8) + ("u;\n"@ + (rest))),
        Statement::Declare(Type::U32, Declared::One(Name::B, Expression::Hex { number: number, width: 8, unsigned: true })).grouped(),
{
    reveal_strlit("\n");
    reveal_strlit(" ");
    reveal_strlit("    ");
    reveal_strlit("    uint32_t b = 0x");
    reveal_strlit(" = ");
    reveal_strlit("0x");
    reveal_strlit(";");
    reveal_strlit("b");
    reveal_strlit("u");
    reveal_strlit("u;\n");
    reveal_strlit("uint32_t");
    small_c::lemma_numbers();
    reveal(Statement::text);
    reveal(Statement::grouped);
    reveal_with_fuel(Declared::text, 2);
    reveal_with_fuel(Declared::grouped, 2);
    reveal_with_fuel(Expression::text, 2);
    reveal_with_fuel(Expression::grouped, 2);
    assert(Layout::Alone.around(Statement::Declare(Type::U32, Declared::One(Name::B, Expression::Hex { number: number, width: 8, unsigned: true })).text()) + rest =~= "    uint32_t b = 0x"@ + (text::hex_wide(number, 8) + ("u;\n"@ + (rest))));
}

proof fn lemma_text_6(x0: Seq<char>, rest: Seq<char>)
    ensures
        text::fill("    uint32_t b = 0x{}u;"@, seq![x0]) + rest == "    uint32_t b = 0x"@ + (x0 + ("u;"@ + (rest))),
{
    reveal_strlit("    uint32_t b = 0x{}u;");
    reveal_strlit("{}");
    reveal_strlit("    uint32_t b = 0x");
    reveal_strlit("u;");
    assert("    uint32_t b = 0x{}u;"@ =~= "    uint32_t b = 0x"@ + "{}"@ + ("u;"@));
    let args_0 = seq![x0];
    let args_1 = Seq::<Seq<char>>::empty();
    assert(args_0.skip(1) =~= args_1);
    lemma_hole("    uint32_t b = 0x"@, "u;"@, args_0);
    lemma_plain("u;"@);
    assert(text::fill("    uint32_t b = 0x{}u;"@, seq![x0]) + rest =~= "    uint32_t b = 0x"@ + (x0 + ("u;"@ + (rest))));
}

proof fn lemma_letters_3(rest: Seq<char>)
    ensures
        "u;\n"@ + (rest) == "u;"@ + ("\n"@ + (rest)),
{
    reveal_strlit("u;\n");
    reveal_strlit("u;");
    reveal_strlit("\n");
    assert("u;\n"@ + (rest) =~= "u;"@ + ("\n"@ + (rest)));
}

pub open spec fn b_hex_line(number: nat) -> Program {
    Program::Then(
        Layout::Alone,
        Statement::Declare(Type::U32, Declared::One(Name::B, Expression::Hex { number: number, width: 8, unsigned: true })),
        Box::new(Program::End),
    )
}

pub proof fn lemma_b_hex_line(number: nat)
    ensures
        b_hex_line(number).text() == text::fill("    uint32_t b = 0x{}u;"@, seq![text::hex_wide(number, 8)]).push('\n'),
        b_hex_line(number).grouped(),
{
    reveal_with_fuel(Program::text, 2);
    reveal_with_fuel(Program::grouped, 2);
    lemma_statement_6(number, Seq::<char>::empty());
    lemma_text_6(text::hex_wide(number, 8), "\n"@ + Seq::<char>::empty());
    lemma_letters_3(Seq::<char>::empty());
    reveal_strlit("\n");
    assert(text::fill("    uint32_t b = 0x{}u;"@, seq![text::hex_wide(number, 8)]).push('\n') =~= text::fill("    uint32_t b = 0x{}u;"@, seq![text::hex_wide(number, 8)]) + ("\n"@ + Seq::<char>::empty()));
    assert(b_hex_line(number).text() == text::fill("    uint32_t b = 0x{}u;"@, seq![text::hex_wide(number, 8)]).push('\n'));
}

proof fn lemma_statement_7(x: Expression, rest: Seq<char>)
    requires
        x.grouped(),
    ensures
        Layout::Alone.around(Statement::Declare(Type::U8, Declared::One(Name::Sc, x)).text()) + rest == "    uint8_t sc = "@ + (x.text() + (";\n"@ + (rest))),
        Statement::Declare(Type::U8, Declared::One(Name::Sc, x)).grouped(),
{
    reveal_strlit("\n");
    reveal_strlit(" ");
    reveal_strlit("    ");
    reveal_strlit("    uint8_t sc = ");
    reveal_strlit(" = ");
    reveal_strlit(";");
    reveal_strlit(";\n");
    reveal_strlit("sc");
    reveal_strlit("uint8_t");
    small_c::lemma_numbers();
    reveal(Statement::text);
    reveal(Statement::grouped);
    reveal_with_fuel(Declared::text, 2);
    reveal_with_fuel(Declared::grouped, 2);
    reveal_with_fuel(Expression::text, 2);
    reveal_with_fuel(Expression::grouped, 2);
    assert(Layout::Alone.around(Statement::Declare(Type::U8, Declared::One(Name::Sc, x)).text()) + rest =~= "    uint8_t sc = "@ + (x.text() + (";\n"@ + (rest))));
}

proof fn lemma_text_7(x0: Seq<char>, rest: Seq<char>)
    ensures
        text::fill("    uint8_t sc = {};"@, seq![x0]) + rest == "    uint8_t sc = "@ + (x0 + (";"@ + (rest))),
{
    reveal_strlit("    uint8_t sc = {};");
    reveal_strlit("{}");
    reveal_strlit("    uint8_t sc = ");
    reveal_strlit(";");
    assert("    uint8_t sc = {};"@ =~= "    uint8_t sc = "@ + "{}"@ + (";"@));
    let args_0 = seq![x0];
    let args_1 = Seq::<Seq<char>>::empty();
    assert(args_0.skip(1) =~= args_1);
    lemma_hole("    uint8_t sc = "@, ";"@, args_0);
    lemma_plain(";"@);
    assert(text::fill("    uint8_t sc = {};"@, seq![x0]) + rest =~= "    uint8_t sc = "@ + (x0 + (";"@ + (rest))));
}

pub open spec fn sc_line(x: Expression) -> Program {
    Program::Then(
        Layout::Alone,
        Statement::Declare(Type::U8, Declared::One(Name::Sc, x)),
        Box::new(Program::End),
    )
}

pub proof fn lemma_sc_line(x: Expression)
    requires
        x.grouped(),
    ensures
        sc_line(x).text() == text::fill("    uint8_t sc = {};"@, seq![x.text()]).push('\n'),
        sc_line(x).grouped(),
{
    reveal_with_fuel(Program::text, 2);
    reveal_with_fuel(Program::grouped, 2);
    lemma_statement_7(x, Seq::<char>::empty());
    lemma_text_7(x.text(), "\n"@ + Seq::<char>::empty());
    lemma_letters_2(Seq::<char>::empty());
    reveal_strlit("\n");
    assert(text::fill("    uint8_t sc = {};"@, seq![x.text()]).push('\n') =~= text::fill("    uint8_t sc = {};"@, seq![x.text()]) + ("\n"@ + Seq::<char>::empty()));
    assert(sc_line(x).text() == text::fill("    uint8_t sc = {};"@, seq![x.text()]).push('\n'));
}

proof fn lemma_statement_8(rest: Seq<char>)
    ensures
        Layout::Alone.around(Statement::Declare(Type::U8, Declared::One(Name::Sc, Expression::Field(Field::C))).text()) + rest == "    uint8_t sc = ctx->c;\n"@ + (rest),
        Statement::Declare(Type::U8, Declared::One(Name::Sc, Expression::Field(Field::C))).grouped(),
{
    reveal_strlit("\n");
    reveal_strlit(" ");
    reveal_strlit("    ");
    reveal_strlit("    uint8_t sc = ctx->c;\n");
    reveal_strlit(" = ");
    reveal_strlit(";");
    reveal_strlit("ctx->c");
    reveal_strlit("sc");
    reveal_strlit("uint8_t");
    small_c::lemma_numbers();
    reveal(Statement::text);
    reveal(Statement::grouped);
    reveal_with_fuel(Declared::text, 2);
    reveal_with_fuel(Declared::grouped, 2);
    reveal_with_fuel(Expression::text, 2);
    reveal_with_fuel(Expression::grouped, 2);
    assert(Layout::Alone.around(Statement::Declare(Type::U8, Declared::One(Name::Sc, Expression::Field(Field::C))).text()) + rest =~= "    uint8_t sc = ctx->c;\n"@ + (rest));
}

proof fn lemma_text_8(rest: Seq<char>)
    ensures
        text::fill("    uint8_t sc = ctx->c;"@, Seq::<Seq<char>>::empty()) + rest == "    uint8_t sc = ctx->c;"@ + (rest),
{
    lemma_plain("    uint8_t sc = ctx->c;"@);
    assert(text::fill("    uint8_t sc = ctx->c;"@, Seq::<Seq<char>>::empty()) + rest =~= "    uint8_t sc = ctx->c;"@ + (rest));
}

proof fn lemma_letters_4(rest: Seq<char>)
    ensures
        "    uint8_t sc = ctx->c;\n"@ + (rest) == "    uint8_t sc = ctx->c;"@ + ("\n"@ + (rest)),
{
    reveal_strlit("    uint8_t sc = ctx->c;\n");
    reveal_strlit("    uint8_t sc = ctx->c;");
    reveal_strlit("\n");
    assert("    uint8_t sc = ctx->c;\n"@ + (rest) =~= "    uint8_t sc = ctx->c;"@ + ("\n"@ + (rest)));
}

pub open spec fn sc_c_line() -> Program {
    Program::Then(
        Layout::Alone,
        Statement::Declare(Type::U8, Declared::One(Name::Sc, Expression::Field(Field::C))),
        Box::new(Program::End),
    )
}

pub proof fn lemma_sc_c_line()
    ensures
        sc_c_line().text() == text::fill("    uint8_t sc = ctx->c;"@, Seq::<Seq<char>>::empty()).push('\n'),
        sc_c_line().grouped(),
{
    reveal_with_fuel(Program::text, 2);
    reveal_with_fuel(Program::grouped, 2);
    lemma_statement_8(Seq::<char>::empty());
    lemma_text_8("\n"@ + Seq::<char>::empty());
    lemma_letters_4(Seq::<char>::empty());
    reveal_strlit("\n");
    assert(text::fill("    uint8_t sc = ctx->c;"@, Seq::<Seq<char>>::empty()).push('\n') =~= text::fill("    uint8_t sc = ctx->c;"@, Seq::<Seq<char>>::empty()) + ("\n"@ + Seq::<char>::empty()));
    assert(sc_c_line().text() == text::fill("    uint8_t sc = ctx->c;"@, Seq::<Seq<char>>::empty()).push('\n'));
}

proof fn lemma_statement_9(rest: Seq<char>)
    ensures
        Layout::Alone.around(Statement::Declare(Type::U8, Declared::One(Name::Ci, Expression::Field(Field::C))).text()) + rest == "    uint8_t ci = ctx->c;\n"@ + (rest),
        Statement::Declare(Type::U8, Declared::One(Name::Ci, Expression::Field(Field::C))).grouped(),
{
    reveal_strlit("\n");
    reveal_strlit(" ");
    reveal_strlit("    ");
    reveal_strlit("    uint8_t ci = ctx->c;\n");
    reveal_strlit(" = ");
    reveal_strlit(";");
    reveal_strlit("ci");
    reveal_strlit("ctx->c");
    reveal_strlit("uint8_t");
    small_c::lemma_numbers();
    reveal(Statement::text);
    reveal(Statement::grouped);
    reveal_with_fuel(Declared::text, 2);
    reveal_with_fuel(Declared::grouped, 2);
    reveal_with_fuel(Expression::text, 2);
    reveal_with_fuel(Expression::grouped, 2);
    assert(Layout::Alone.around(Statement::Declare(Type::U8, Declared::One(Name::Ci, Expression::Field(Field::C))).text()) + rest =~= "    uint8_t ci = ctx->c;\n"@ + (rest));
}

proof fn lemma_text_9(rest: Seq<char>)
    ensures
        text::fill("    uint8_t ci = ctx->c;"@, Seq::<Seq<char>>::empty()) + rest == "    uint8_t ci = ctx->c;"@ + (rest),
{
    lemma_plain("    uint8_t ci = ctx->c;"@);
    assert(text::fill("    uint8_t ci = ctx->c;"@, Seq::<Seq<char>>::empty()) + rest =~= "    uint8_t ci = ctx->c;"@ + (rest));
}

proof fn lemma_letters_5(rest: Seq<char>)
    ensures
        "    uint8_t ci = ctx->c;\n"@ + (rest) == "    uint8_t ci = ctx->c;"@ + ("\n"@ + (rest)),
{
    reveal_strlit("    uint8_t ci = ctx->c;\n");
    reveal_strlit("    uint8_t ci = ctx->c;");
    reveal_strlit("\n");
    assert("    uint8_t ci = ctx->c;\n"@ + (rest) =~= "    uint8_t ci = ctx->c;"@ + ("\n"@ + (rest)));
}

pub open spec fn ci_line() -> Program {
    Program::Then(
        Layout::Alone,
        Statement::Declare(Type::U8, Declared::One(Name::Ci, Expression::Field(Field::C))),
        Box::new(Program::End),
    )
}

pub proof fn lemma_ci_line()
    ensures
        ci_line().text() == text::fill("    uint8_t ci = ctx->c;"@, Seq::<Seq<char>>::empty()).push('\n'),
        ci_line().grouped(),
{
    reveal_with_fuel(Program::text, 2);
    reveal_with_fuel(Program::grouped, 2);
    lemma_statement_9(Seq::<char>::empty());
    lemma_text_9("\n"@ + Seq::<char>::empty());
    lemma_letters_5(Seq::<char>::empty());
    reveal_strlit("\n");
    assert(text::fill("    uint8_t ci = ctx->c;"@, Seq::<Seq<char>>::empty()).push('\n') =~= text::fill("    uint8_t ci = ctx->c;"@, Seq::<Seq<char>>::empty()) + ("\n"@ + Seq::<char>::empty()));
    assert(ci_line().text() == text::fill("    uint8_t ci = ctx->c;"@, Seq::<Seq<char>>::empty()).push('\n'));
}

proof fn lemma_statement_10(x: Expression, y: Expression, rest: Seq<char>)
    requires
        x.grouped(),
        y.grouped(),
    ensures
        Layout::Alone.around(Statement::DeclareShift(Name::B, Shift::Lsl, x, y).text()) + rest == "    uint32_t b = shift_lsl("@ + (x.text() + (", "@ + (y.text() + (", &sc);\n"@ + (rest))))),
        Statement::DeclareShift(Name::B, Shift::Lsl, x, y).grouped(),
{
    reveal_strlit("\n");
    reveal_strlit("    ");
    reveal_strlit("    uint32_t b = shift_lsl(");
    reveal_strlit(" = ");
    reveal_strlit(", ");
    reveal_strlit(", &sc);");
    reveal_strlit(", &sc);\n");
    reveal_strlit("b");
    reveal_strlit("shift_lsl(");
    reveal_strlit("uint32_t ");
    small_c::lemma_numbers();
    reveal(Statement::text);
    reveal(Statement::grouped);
    assert(Layout::Alone.around(Statement::DeclareShift(Name::B, Shift::Lsl, x, y).text()) + rest =~= "    uint32_t b = shift_lsl("@ + (x.text() + (", "@ + (y.text() + (", &sc);\n"@ + (rest))))));
}

proof fn lemma_text_10(x0: Seq<char>, x1: Seq<char>, x2: Seq<char>, rest: Seq<char>)
    ensures
        text::fill("    uint32_t b = {}({}, {}, &sc);"@, seq![x0, x1, x2]) + rest == "    uint32_t b = "@ + (x0 + ("("@ + (x1 + (", "@ + (x2 + (", &sc);"@ + (rest))))))),
{
    reveal_strlit("    uint32_t b = {}({}, {}, &sc);");
    reveal_strlit("{}");
    reveal_strlit("    uint32_t b = ");
    reveal_strlit("(");
    reveal_strlit(", ");
    reveal_strlit(", &sc);");
    assert("    uint32_t b = {}({}, {}, &sc);"@ =~= "    uint32_t b = "@ + "{}"@ + ("("@ + "{}"@ + (", "@ + "{}"@ + (", &sc);"@))));
    let args_0 = seq![x0, x1, x2];
    let args_1 = seq![x1, x2];
    let args_2 = seq![x2];
    let args_3 = Seq::<Seq<char>>::empty();
    assert(args_0.skip(1) =~= args_1);
    assert(args_1.skip(1) =~= args_2);
    assert(args_2.skip(1) =~= args_3);
    lemma_hole("    uint32_t b = "@, "("@ + "{}"@ + (", "@ + "{}"@ + (", &sc);"@)), args_0);
    lemma_hole("("@, ", "@ + "{}"@ + (", &sc);"@), args_1);
    lemma_hole(", "@, ", &sc);"@, args_2);
    lemma_plain(", &sc);"@);
    assert(text::fill("    uint32_t b = {}({}, {}, &sc);"@, seq![x0, x1, x2]) + rest =~= "    uint32_t b = "@ + (x0 + ("("@ + (x1 + (", "@ + (x2 + (", &sc);"@ + (rest))))))));
}

proof fn lemma_letters_6(rest: Seq<char>)
    ensures
        ", &sc);\n"@ + (rest) == ", &sc);"@ + ("\n"@ + (rest)),
{
    reveal_strlit(", &sc);\n");
    reveal_strlit(", &sc);");
    reveal_strlit("\n");
    assert(", &sc);\n"@ + (rest) =~= ", &sc);"@ + ("\n"@ + (rest)));
}

proof fn lemma_letters_7(rest: Seq<char>)
    ensures
        "    uint32_t b = shift_lsl("@ + (rest) == "    uint32_t b = "@ + ("shift_lsl"@ + ("("@ + (rest))),
{
    reveal_strlit("    uint32_t b = shift_lsl(");
    reveal_strlit("    uint32_t b = ");
    reveal_strlit("shift_lsl");
    reveal_strlit("(");
    assert("    uint32_t b = shift_lsl("@ + (rest) =~= "    uint32_t b = "@ + ("shift_lsl"@ + ("("@ + (rest))));
}

pub open spec fn b_lsl_line(x: Expression, y: Expression) -> Program {
    Program::Then(
        Layout::Alone,
        Statement::DeclareShift(Name::B, Shift::Lsl, x, y),
        Box::new(Program::End),
    )
}

pub proof fn lemma_b_lsl_line(x: Expression, y: Expression)
    requires
        x.grouped(),
        y.grouped(),
    ensures
        b_lsl_line(x, y).text() == text::fill("    uint32_t b = {}({}, {}, &sc);"@, seq!["shift_lsl"@, x.text(), y.text()]).push('\n'),
        b_lsl_line(x, y).grouped(),
{
    reveal_with_fuel(Program::text, 2);
    reveal_with_fuel(Program::grouped, 2);
    lemma_statement_10(x, y, Seq::<char>::empty());
    assert("shift_lsl"@ == "shift_lsl"@);
    lemma_text_10("shift_lsl"@, x.text(), y.text(), "\n"@ + Seq::<char>::empty());
    lemma_letters_6(Seq::<char>::empty());
    lemma_letters_7(x.text() + (", "@ + (y.text() + (", &sc);"@ + ("\n"@ + (Seq::<char>::empty()))))));
    reveal_strlit("\n");
    assert(text::fill("    uint32_t b = {}({}, {}, &sc);"@, seq!["shift_lsl"@, x.text(), y.text()]).push('\n') =~= text::fill("    uint32_t b = {}({}, {}, &sc);"@, seq!["shift_lsl"@, x.text(), y.text()]) + ("\n"@ + Seq::<char>::empty()));
    assert(b_lsl_line(x, y).text() == text::fill("    uint32_t b = {}({}, {}, &sc);"@, seq!["shift_lsl"@, x.text(), y.text()]).push('\n'));
}

proof fn lemma_statement_11(x: Expression, y: Expression, rest: Seq<char>)
    requires
        x.grouped(),
        y.grouped(),
    ensures
        Layout::Alone.around(Statement::DeclareShift(Name::B, Shift::Lsr, x, y).text()) + rest == "    uint32_t b = shift_lsr("@ + (x.text() + (", "@ + (y.text() + (", &sc);\n"@ + (rest))))),
        Statement::DeclareShift(Name::B, Shift::Lsr, x, y).grouped(),
{
    reveal_strlit("\n");
    reveal_strlit("    ");
    reveal_strlit("    uint32_t b = shift_lsr(");
    reveal_strlit(" = ");
    reveal_strlit(", ");
    reveal_strlit(", &sc);");
    reveal_strlit(", &sc);\n");
    reveal_strlit("b");
    reveal_strlit("shift_lsr(");
    reveal_strlit("uint32_t ");
    small_c::lemma_numbers();
    reveal(Statement::text);
    reveal(Statement::grouped);
    assert(Layout::Alone.around(Statement::DeclareShift(Name::B, Shift::Lsr, x, y).text()) + rest =~= "    uint32_t b = shift_lsr("@ + (x.text() + (", "@ + (y.text() + (", &sc);\n"@ + (rest))))));
}

proof fn lemma_letters_8(rest: Seq<char>)
    ensures
        "    uint32_t b = shift_lsr("@ + (rest) == "    uint32_t b = "@ + ("shift_lsr"@ + ("("@ + (rest))),
{
    reveal_strlit("    uint32_t b = shift_lsr(");
    reveal_strlit("    uint32_t b = ");
    reveal_strlit("shift_lsr");
    reveal_strlit("(");
    assert("    uint32_t b = shift_lsr("@ + (rest) =~= "    uint32_t b = "@ + ("shift_lsr"@ + ("("@ + (rest))));
}

pub open spec fn b_lsr_line(x: Expression, y: Expression) -> Program {
    Program::Then(
        Layout::Alone,
        Statement::DeclareShift(Name::B, Shift::Lsr, x, y),
        Box::new(Program::End),
    )
}

pub proof fn lemma_b_lsr_line(x: Expression, y: Expression)
    requires
        x.grouped(),
        y.grouped(),
    ensures
        b_lsr_line(x, y).text() == text::fill("    uint32_t b = {}({}, {}, &sc);"@, seq!["shift_lsr"@, x.text(), y.text()]).push('\n'),
        b_lsr_line(x, y).grouped(),
{
    reveal_with_fuel(Program::text, 2);
    reveal_with_fuel(Program::grouped, 2);
    lemma_statement_11(x, y, Seq::<char>::empty());
    assert("shift_lsr"@ == "shift_lsr"@);
    lemma_text_10("shift_lsr"@, x.text(), y.text(), "\n"@ + Seq::<char>::empty());
    lemma_letters_6(Seq::<char>::empty());
    lemma_letters_8(x.text() + (", "@ + (y.text() + (", &sc);"@ + ("\n"@ + (Seq::<char>::empty()))))));
    reveal_strlit("\n");
    assert(text::fill("    uint32_t b = {}({}, {}, &sc);"@, seq!["shift_lsr"@, x.text(), y.text()]).push('\n') =~= text::fill("    uint32_t b = {}({}, {}, &sc);"@, seq!["shift_lsr"@, x.text(), y.text()]) + ("\n"@ + Seq::<char>::empty()));
    assert(b_lsr_line(x, y).text() == text::fill("    uint32_t b = {}({}, {}, &sc);"@, seq!["shift_lsr"@, x.text(), y.text()]).push('\n'));
}

proof fn lemma_statement_12(x: Expression, y: Expression, rest: Seq<char>)
    requires
        x.grouped(),
        y.grouped(),
    ensures
        Layout::Alone.around(Statement::DeclareShift(Name::B, Shift::Asr, x, y).text()) + rest == "    uint32_t b = shift_asr("@ + (x.text() + (", "@ + (y.text() + (", &sc);\n"@ + (rest))))),
        Statement::DeclareShift(Name::B, Shift::Asr, x, y).grouped(),
{
    reveal_strlit("\n");
    reveal_strlit("    ");
    reveal_strlit("    uint32_t b = shift_asr(");
    reveal_strlit(" = ");
    reveal_strlit(", ");
    reveal_strlit(", &sc);");
    reveal_strlit(", &sc);\n");
    reveal_strlit("b");
    reveal_strlit("shift_asr(");
    reveal_strlit("uint32_t ");
    small_c::lemma_numbers();
    reveal(Statement::text);
    reveal(Statement::grouped);
    assert(Layout::Alone.around(Statement::DeclareShift(Name::B, Shift::Asr, x, y).text()) + rest =~= "    uint32_t b = shift_asr("@ + (x.text() + (", "@ + (y.text() + (", &sc);\n"@ + (rest))))));
}

proof fn lemma_letters_9(rest: Seq<char>)
    ensures
        "    uint32_t b = shift_asr("@ + (rest) == "    uint32_t b = "@ + ("shift_asr"@ + ("("@ + (rest))),
{
    reveal_strlit("    uint32_t b = shift_asr(");
    reveal_strlit("    uint32_t b = ");
    reveal_strlit("shift_asr");
    reveal_strlit("(");
    assert("    uint32_t b = shift_asr("@ + (rest) =~= "    uint32_t b = "@ + ("shift_asr"@ + ("("@ + (rest))));
}

pub open spec fn b_asr_line(x: Expression, y: Expression) -> Program {
    Program::Then(
        Layout::Alone,
        Statement::DeclareShift(Name::B, Shift::Asr, x, y),
        Box::new(Program::End),
    )
}

pub proof fn lemma_b_asr_line(x: Expression, y: Expression)
    requires
        x.grouped(),
        y.grouped(),
    ensures
        b_asr_line(x, y).text() == text::fill("    uint32_t b = {}({}, {}, &sc);"@, seq!["shift_asr"@, x.text(), y.text()]).push('\n'),
        b_asr_line(x, y).grouped(),
{
    reveal_with_fuel(Program::text, 2);
    reveal_with_fuel(Program::grouped, 2);
    lemma_statement_12(x, y, Seq::<char>::empty());
    assert("shift_asr"@ == "shift_asr"@);
    lemma_text_10("shift_asr"@, x.text(), y.text(), "\n"@ + Seq::<char>::empty());
    lemma_letters_6(Seq::<char>::empty());
    lemma_letters_9(x.text() + (", "@ + (y.text() + (", &sc);"@ + ("\n"@ + (Seq::<char>::empty()))))));
    reveal_strlit("\n");
    assert(text::fill("    uint32_t b = {}({}, {}, &sc);"@, seq!["shift_asr"@, x.text(), y.text()]).push('\n') =~= text::fill("    uint32_t b = {}({}, {}, &sc);"@, seq!["shift_asr"@, x.text(), y.text()]) + ("\n"@ + Seq::<char>::empty()));
    assert(b_asr_line(x, y).text() == text::fill("    uint32_t b = {}({}, {}, &sc);"@, seq!["shift_asr"@, x.text(), y.text()]).push('\n'));
}

proof fn lemma_statement_13(x: Expression, y: Expression, rest: Seq<char>)
    requires
        x.grouped(),
        y.grouped(),
    ensures
        Layout::Alone.around(Statement::DeclareShift(Name::B, Shift::Ror, x, y).text()) + rest == "    uint32_t b = shift_ror("@ + (x.text() + (", "@ + (y.text() + (", &sc);\n"@ + (rest))))),
        Statement::DeclareShift(Name::B, Shift::Ror, x, y).grouped(),
{
    reveal_strlit("\n");
    reveal_strlit("    ");
    reveal_strlit("    uint32_t b = shift_ror(");
    reveal_strlit(" = ");
    reveal_strlit(", ");
    reveal_strlit(", &sc);");
    reveal_strlit(", &sc);\n");
    reveal_strlit("b");
    reveal_strlit("shift_ror(");
    reveal_strlit("uint32_t ");
    small_c::lemma_numbers();
    reveal(Statement::text);
    reveal(Statement::grouped);
    assert(Layout::Alone.around(Statement::DeclareShift(Name::B, Shift::Ror, x, y).text()) + rest =~= "    uint32_t b = shift_ror("@ + (x.text() + (", "@ + (y.text() + (", &sc);\n"@ + (rest))))));
}

proof fn lemma_letters_10(rest: Seq<char>)
    ensures
        "    uint32_t b = shift_ror("@ + (rest) == "    uint32_t b = "@ + ("shift_ror"@ + ("("@ + (rest))),
{
    reveal_strlit("    uint32_t b = shift_ror(");
    reveal_strlit("    uint32_t b = ");
    reveal_strlit("shift_ror");
    reveal_strlit("(");
    assert("    uint32_t b = shift_ror("@ + (rest) =~= "    uint32_t b = "@ + ("shift_ror"@ + ("("@ + (rest))));
}

pub open spec fn b_ror_line(x: Expression, y: Expression) -> Program {
    Program::Then(
        Layout::Alone,
        Statement::DeclareShift(Name::B, Shift::Ror, x, y),
        Box::new(Program::End),
    )
}

pub proof fn lemma_b_ror_line(x: Expression, y: Expression)
    requires
        x.grouped(),
        y.grouped(),
    ensures
        b_ror_line(x, y).text() == text::fill("    uint32_t b = {}({}, {}, &sc);"@, seq!["shift_ror"@, x.text(), y.text()]).push('\n'),
        b_ror_line(x, y).grouped(),
{
    reveal_with_fuel(Program::text, 2);
    reveal_with_fuel(Program::grouped, 2);
    lemma_statement_13(x, y, Seq::<char>::empty());
    assert("shift_ror"@ == "shift_ror"@);
    lemma_text_10("shift_ror"@, x.text(), y.text(), "\n"@ + Seq::<char>::empty());
    lemma_letters_6(Seq::<char>::empty());
    lemma_letters_10(x.text() + (", "@ + (y.text() + (", &sc);"@ + ("\n"@ + (Seq::<char>::empty()))))));
    reveal_strlit("\n");
    assert(text::fill("    uint32_t b = {}({}, {}, &sc);"@, seq!["shift_ror"@, x.text(), y.text()]).push('\n') =~= text::fill("    uint32_t b = {}({}, {}, &sc);"@, seq!["shift_ror"@, x.text(), y.text()]) + ("\n"@ + Seq::<char>::empty()));
    assert(b_ror_line(x, y).text() == text::fill("    uint32_t b = {}({}, {}, &sc);"@, seq!["shift_ror"@, x.text(), y.text()]).push('\n'));
}

proof fn lemma_statement_14(rest: Seq<char>)
    ensures
        Layout::Last.around(Statement::Assign(Place::Field(Field::Z), Expression::Two(Operator::Equal, Box::new(Expression::Local(Name::R)), Box::new(Expression::Int(0)))).text()) + rest == "ctx->z = r == 0;\n"@ + (rest),
        Statement::Assign(Place::Field(Field::Z), Expression::Two(Operator::Equal, Box::new(Expression::Local(Name::R)), Box::new(Expression::Int(0)))).grouped(),
{
    reveal_strlit("\n");
    reveal_strlit(" = ");
    reveal_strlit(" == ");
    reveal_strlit("0");
    reveal_strlit(";");
    reveal_strlit("ctx->z");
    reveal_strlit("ctx->z = r == 0;\n");
    reveal_strlit("r");
    small_c::lemma_numbers();
    reveal(Statement::text);
    reveal(Statement::grouped);
    reveal_with_fuel(Expression::text, 3);
    reveal_with_fuel(Expression::grouped, 3);
    assert(Layout::Last.around(Statement::Assign(Place::Field(Field::Z), Expression::Two(Operator::Equal, Box::new(Expression::Local(Name::R)), Box::new(Expression::Int(0)))).text()) + rest =~= "ctx->z = r == 0;\n"@ + (rest));
}

proof fn lemma_statement_15(rest: Seq<char>)
    ensures
        Layout::First.around(Statement::Assign(Place::Field(Field::N), Expression::Two(Operator::Right, Box::new(Expression::Local(Name::R)), Box::new(Expression::Int(31)))).text()) + rest == "    ctx->n = r >> 31; "@ + (rest),
        Statement::Assign(Place::Field(Field::N), Expression::Two(Operator::Right, Box::new(Expression::Local(Name::R)), Box::new(Expression::Int(31)))).grouped(),
{
    reveal_strlit(" ");
    reveal_strlit("    ");
    reveal_strlit("    ctx->n = r >> 31; ");
    reveal_strlit(" = ");
    reveal_strlit(" >> ");
    reveal_strlit("31");
    reveal_strlit(";");
    reveal_strlit("ctx->n");
    reveal_strlit("r");
    small_c::lemma_numbers();
    reveal(Statement::text);
    reveal(Statement::grouped);
    reveal_with_fuel(Expression::text, 3);
    reveal_with_fuel(Expression::grouped, 3);
    assert(Layout::First.around(Statement::Assign(Place::Field(Field::N), Expression::Two(Operator::Right, Box::new(Expression::Local(Name::R)), Box::new(Expression::Int(31)))).text()) + rest =~= "    ctx->n = r >> 31; "@ + (rest));
}

proof fn lemma_text_11(rest: Seq<char>)
    ensures
        text::fill("    ctx->n = r >> 31; ctx->z = r == 0;"@, Seq::<Seq<char>>::empty()) + rest == "    ctx->n = r >> 31; ctx->z = r == 0;"@ + (rest),
{
    lemma_plain("    ctx->n = r >> 31; ctx->z = r == 0;"@);
    assert(text::fill("    ctx->n = r >> 31; ctx->z = r == 0;"@, Seq::<Seq<char>>::empty()) + rest =~= "    ctx->n = r >> 31; ctx->z = r == 0;"@ + (rest));
}

proof fn lemma_letters_11(rest: Seq<char>)
    ensures
        "    ctx->n = r >> 31; "@ + ("ctx->z = r == 0;\n"@ + (rest)) == "    ctx->n = r >> 31; ctx->z = r == 0;"@ + ("\n"@ + (rest)),
{
    reveal_strlit("    ctx->n = r >> 31; ");
    reveal_strlit("ctx->z = r == 0;\n");
    reveal_strlit("    ctx->n = r >> 31; ctx->z = r == 0;");
    reveal_strlit("\n");
    assert("    ctx->n = r >> 31; "@ + ("ctx->z = r == 0;\n"@ + (rest)) =~= "    ctx->n = r >> 31; ctx->z = r == 0;"@ + ("\n"@ + (rest)));
}

pub open spec fn sign_line() -> Program {
    Program::Then(
        Layout::First,
        Statement::Assign(Place::Field(Field::N), Expression::Two(Operator::Right, Box::new(Expression::Local(Name::R)), Box::new(Expression::Int(31)))),
        Box::new(Program::Then(
        Layout::Last,
        Statement::Assign(Place::Field(Field::Z), Expression::Two(Operator::Equal, Box::new(Expression::Local(Name::R)), Box::new(Expression::Int(0)))),
        Box::new(Program::End),
    )),
    )
}

pub proof fn lemma_sign_line()
    ensures
        sign_line().text() == text::fill("    ctx->n = r >> 31; ctx->z = r == 0;"@, Seq::<Seq<char>>::empty()).push('\n'),
        sign_line().grouped(),
{
    reveal_with_fuel(Program::text, 3);
    reveal_with_fuel(Program::grouped, 3);
    lemma_statement_14(Seq::<char>::empty());
    lemma_statement_15("ctx->z = r == 0;\n"@ + (Seq::<char>::empty()));
    lemma_text_11("\n"@ + Seq::<char>::empty());
    lemma_letters_11(Seq::<char>::empty());
    reveal_strlit("\n");
    assert(text::fill("    ctx->n = r >> 31; ctx->z = r == 0;"@, Seq::<Seq<char>>::empty()).push('\n') =~= text::fill("    ctx->n = r >> 31; ctx->z = r == 0;"@, Seq::<Seq<char>>::empty()) + ("\n"@ + Seq::<char>::empty()));
    assert(sign_line().text() == text::fill("    ctx->n = r >> 31; ctx->z = r == 0;"@, Seq::<Seq<char>>::empty()).push('\n'));
}

#[verifier::rlimit(60)]
proof fn lemma_statement_16(rest: Seq<char>)
    ensures
        Layout::Last.around(Statement::Assign(Place::Field(Field::V), Expression::Two(Operator::Right, Box::new(Expression::Group(Box::new(Expression::Two(Operator::And, Box::new(Expression::Group(Box::new(Expression::Two(Operator::Xor, Box::new(Expression::Local(Name::A)), Box::new(Expression::Local(Name::B)))))), Box::new(Expression::Group(Box::new(Expression::Two(Operator::Xor, Box::new(Expression::Local(Name::A)), Box::new(Expression::Local(Name::R)))))))))), Box::new(Expression::Int(31)))).text()) + rest == "ctx->v = ((a ^ b) & (a ^ r)) >> 31;\n"@ + (rest),
        Statement::Assign(Place::Field(Field::V), Expression::Two(Operator::Right, Box::new(Expression::Group(Box::new(Expression::Two(Operator::And, Box::new(Expression::Group(Box::new(Expression::Two(Operator::Xor, Box::new(Expression::Local(Name::A)), Box::new(Expression::Local(Name::B)))))), Box::new(Expression::Group(Box::new(Expression::Two(Operator::Xor, Box::new(Expression::Local(Name::A)), Box::new(Expression::Local(Name::R)))))))))), Box::new(Expression::Int(31)))).grouped(),
{
    reveal_strlit("\n");
    reveal_strlit(" & ");
    reveal_strlit(" = ");
    reveal_strlit(" >> ");
    reveal_strlit(" ^ ");
    reveal_strlit("(");
    reveal_strlit(")");
    reveal_strlit("31");
    reveal_strlit(";");
    reveal_strlit("a");
    reveal_strlit("b");
    reveal_strlit("ctx->v");
    reveal_strlit("ctx->v = ((a ^ b) & (a ^ r)) >> 31;\n");
    reveal_strlit("r");
    small_c::lemma_numbers();
    reveal(Statement::text);
    reveal(Statement::grouped);
    reveal_with_fuel(Expression::text, 7);
    reveal_with_fuel(Expression::grouped, 7);
    assert(Layout::Last.around(Statement::Assign(Place::Field(Field::V), Expression::Two(Operator::Right, Box::new(Expression::Group(Box::new(Expression::Two(Operator::And, Box::new(Expression::Group(Box::new(Expression::Two(Operator::Xor, Box::new(Expression::Local(Name::A)), Box::new(Expression::Local(Name::B)))))), Box::new(Expression::Group(Box::new(Expression::Two(Operator::Xor, Box::new(Expression::Local(Name::A)), Box::new(Expression::Local(Name::R)))))))))), Box::new(Expression::Int(31)))).text()) + rest =~= "ctx->v = ((a ^ b) & (a ^ r)) >> 31;\n"@ + (rest));
}

proof fn lemma_statement_17(rest: Seq<char>)
    ensures
        Layout::First.around(Statement::Assign(Place::Field(Field::C), Expression::Two(Operator::AtLeast, Box::new(Expression::Local(Name::A)), Box::new(Expression::Local(Name::B)))).text()) + rest == "    ctx->c = a >= b; "@ + (rest),
        Statement::Assign(Place::Field(Field::C), Expression::Two(Operator::AtLeast, Box::new(Expression::Local(Name::A)), Box::new(Expression::Local(Name::B)))).grouped(),
{
    reveal_strlit(" ");
    reveal_strlit("    ");
    reveal_strlit("    ctx->c = a >= b; ");
    reveal_strlit(" = ");
    reveal_strlit(" >= ");
    reveal_strlit(";");
    reveal_strlit("a");
    reveal_strlit("b");
    reveal_strlit("ctx->c");
    small_c::lemma_numbers();
    reveal(Statement::text);
    reveal(Statement::grouped);
    reveal_with_fuel(Expression::text, 3);
    reveal_with_fuel(Expression::grouped, 3);
    assert(Layout::First.around(Statement::Assign(Place::Field(Field::C), Expression::Two(Operator::AtLeast, Box::new(Expression::Local(Name::A)), Box::new(Expression::Local(Name::B)))).text()) + rest =~= "    ctx->c = a >= b; "@ + (rest));
}

proof fn lemma_text_12(rest: Seq<char>)
    ensures
        text::fill("    ctx->c = a >= b; ctx->v = ((a ^ b) & (a ^ r)) >> 31;"@, Seq::<Seq<char>>::empty()) + rest == "    ctx->c = a >= b; ctx->v = ((a ^ b) & (a ^ r)) >> 31;"@ + (rest),
{
    lemma_plain("    ctx->c = a >= b; ctx->v = ((a ^ b) & (a ^ r)) >> 31;"@);
    assert(text::fill("    ctx->c = a >= b; ctx->v = ((a ^ b) & (a ^ r)) >> 31;"@, Seq::<Seq<char>>::empty()) + rest =~= "    ctx->c = a >= b; ctx->v = ((a ^ b) & (a ^ r)) >> 31;"@ + (rest));
}

proof fn lemma_letters_12(rest: Seq<char>)
    ensures
        "    ctx->c = a >= b; "@ + ("ctx->v = ((a ^ b) & (a ^ r)) >> 31;\n"@ + (rest)) == "    ctx->c = a >= b; ctx->v = ((a ^ b) & (a ^ r)) >> 31;"@ + ("\n"@ + (rest)),
{
    reveal_strlit("    ctx->c = a >= b; ");
    reveal_strlit("ctx->v = ((a ^ b) & (a ^ r)) >> 31;\n");
    reveal_strlit("    ctx->c = a >= b; ctx->v = ((a ^ b) & (a ^ r)) >> 31;");
    reveal_strlit("\n");
    assert("    ctx->c = a >= b; "@ + ("ctx->v = ((a ^ b) & (a ^ r)) >> 31;\n"@ + (rest)) =~= "    ctx->c = a >= b; ctx->v = ((a ^ b) & (a ^ r)) >> 31;"@ + ("\n"@ + (rest)));
}

pub open spec fn sub_flags_line() -> Program {
    Program::Then(
        Layout::First,
        Statement::Assign(Place::Field(Field::C), Expression::Two(Operator::AtLeast, Box::new(Expression::Local(Name::A)), Box::new(Expression::Local(Name::B)))),
        Box::new(Program::Then(
        Layout::Last,
        Statement::Assign(Place::Field(Field::V), Expression::Two(Operator::Right, Box::new(Expression::Group(Box::new(Expression::Two(Operator::And, Box::new(Expression::Group(Box::new(Expression::Two(Operator::Xor, Box::new(Expression::Local(Name::A)), Box::new(Expression::Local(Name::B)))))), Box::new(Expression::Group(Box::new(Expression::Two(Operator::Xor, Box::new(Expression::Local(Name::A)), Box::new(Expression::Local(Name::R)))))))))), Box::new(Expression::Int(31)))),
        Box::new(Program::End),
    )),
    )
}

pub proof fn lemma_sub_flags_line()
    ensures
        sub_flags_line().text() == text::fill("    ctx->c = a >= b; ctx->v = ((a ^ b) & (a ^ r)) >> 31;"@, Seq::<Seq<char>>::empty()).push('\n'),
        sub_flags_line().grouped(),
{
    reveal_with_fuel(Program::text, 3);
    reveal_with_fuel(Program::grouped, 3);
    lemma_statement_16(Seq::<char>::empty());
    lemma_statement_17("ctx->v = ((a ^ b) & (a ^ r)) >> 31;\n"@ + (Seq::<char>::empty()));
    lemma_text_12("\n"@ + Seq::<char>::empty());
    lemma_letters_12(Seq::<char>::empty());
    reveal_strlit("\n");
    assert(text::fill("    ctx->c = a >= b; ctx->v = ((a ^ b) & (a ^ r)) >> 31;"@, Seq::<Seq<char>>::empty()).push('\n') =~= text::fill("    ctx->c = a >= b; ctx->v = ((a ^ b) & (a ^ r)) >> 31;"@, Seq::<Seq<char>>::empty()) + ("\n"@ + Seq::<char>::empty()));
    assert(sub_flags_line().text() == text::fill("    ctx->c = a >= b; ctx->v = ((a ^ b) & (a ^ r)) >> 31;"@, Seq::<Seq<char>>::empty()).push('\n'));
}

#[verifier::rlimit(60)]
proof fn lemma_statement_18(rest: Seq<char>)
    ensures
        Layout::Last.around(Statement::Assign(Place::Field(Field::V), Expression::Two(Operator::Right, Box::new(Expression::Group(Box::new(Expression::Two(Operator::And, Box::new(Expression::Group(Box::new(Expression::Two(Operator::Xor, Box::new(Expression::Local(Name::B)), Box::new(Expression::Local(Name::A)))))), Box::new(Expression::Group(Box::new(Expression::Two(Operator::Xor, Box::new(Expression::Local(Name::B)), Box::new(Expression::Local(Name::R)))))))))), Box::new(Expression::Int(31)))).text()) + rest == "ctx->v = ((b ^ a) & (b ^ r)) >> 31;\n"@ + (rest),
        Statement::Assign(Place::Field(Field::V), Expression::Two(Operator::Right, Box::new(Expression::Group(Box::new(Expression::Two(Operator::And, Box::new(Expression::Group(Box::new(Expression::Two(Operator::Xor, Box::new(Expression::Local(Name::B)), Box::new(Expression::Local(Name::A)))))), Box::new(Expression::Group(Box::new(Expression::Two(Operator::Xor, Box::new(Expression::Local(Name::B)), Box::new(Expression::Local(Name::R)))))))))), Box::new(Expression::Int(31)))).grouped(),
{
    reveal_strlit("\n");
    reveal_strlit(" & ");
    reveal_strlit(" = ");
    reveal_strlit(" >> ");
    reveal_strlit(" ^ ");
    reveal_strlit("(");
    reveal_strlit(")");
    reveal_strlit("31");
    reveal_strlit(";");
    reveal_strlit("a");
    reveal_strlit("b");
    reveal_strlit("ctx->v");
    reveal_strlit("ctx->v = ((b ^ a) & (b ^ r)) >> 31;\n");
    reveal_strlit("r");
    small_c::lemma_numbers();
    reveal(Statement::text);
    reveal(Statement::grouped);
    reveal_with_fuel(Expression::text, 7);
    reveal_with_fuel(Expression::grouped, 7);
    assert(Layout::Last.around(Statement::Assign(Place::Field(Field::V), Expression::Two(Operator::Right, Box::new(Expression::Group(Box::new(Expression::Two(Operator::And, Box::new(Expression::Group(Box::new(Expression::Two(Operator::Xor, Box::new(Expression::Local(Name::B)), Box::new(Expression::Local(Name::A)))))), Box::new(Expression::Group(Box::new(Expression::Two(Operator::Xor, Box::new(Expression::Local(Name::B)), Box::new(Expression::Local(Name::R)))))))))), Box::new(Expression::Int(31)))).text()) + rest =~= "ctx->v = ((b ^ a) & (b ^ r)) >> 31;\n"@ + (rest));
}

proof fn lemma_statement_19(rest: Seq<char>)
    ensures
        Layout::First.around(Statement::Assign(Place::Field(Field::C), Expression::Two(Operator::AtLeast, Box::new(Expression::Local(Name::B)), Box::new(Expression::Local(Name::A)))).text()) + rest == "    ctx->c = b >= a; "@ + (rest),
        Statement::Assign(Place::Field(Field::C), Expression::Two(Operator::AtLeast, Box::new(Expression::Local(Name::B)), Box::new(Expression::Local(Name::A)))).grouped(),
{
    reveal_strlit(" ");
    reveal_strlit("    ");
    reveal_strlit("    ctx->c = b >= a; ");
    reveal_strlit(" = ");
    reveal_strlit(" >= ");
    reveal_strlit(";");
    reveal_strlit("a");
    reveal_strlit("b");
    reveal_strlit("ctx->c");
    small_c::lemma_numbers();
    reveal(Statement::text);
    reveal(Statement::grouped);
    reveal_with_fuel(Expression::text, 3);
    reveal_with_fuel(Expression::grouped, 3);
    assert(Layout::First.around(Statement::Assign(Place::Field(Field::C), Expression::Two(Operator::AtLeast, Box::new(Expression::Local(Name::B)), Box::new(Expression::Local(Name::A)))).text()) + rest =~= "    ctx->c = b >= a; "@ + (rest));
}

proof fn lemma_text_13(rest: Seq<char>)
    ensures
        text::fill("    ctx->c = b >= a; ctx->v = ((b ^ a) & (b ^ r)) >> 31;"@, Seq::<Seq<char>>::empty()) + rest == "    ctx->c = b >= a; ctx->v = ((b ^ a) & (b ^ r)) >> 31;"@ + (rest),
{
    lemma_plain("    ctx->c = b >= a; ctx->v = ((b ^ a) & (b ^ r)) >> 31;"@);
    assert(text::fill("    ctx->c = b >= a; ctx->v = ((b ^ a) & (b ^ r)) >> 31;"@, Seq::<Seq<char>>::empty()) + rest =~= "    ctx->c = b >= a; ctx->v = ((b ^ a) & (b ^ r)) >> 31;"@ + (rest));
}

proof fn lemma_letters_13(rest: Seq<char>)
    ensures
        "    ctx->c = b >= a; "@ + ("ctx->v = ((b ^ a) & (b ^ r)) >> 31;\n"@ + (rest)) == "    ctx->c = b >= a; ctx->v = ((b ^ a) & (b ^ r)) >> 31;"@ + ("\n"@ + (rest)),
{
    reveal_strlit("    ctx->c = b >= a; ");
    reveal_strlit("ctx->v = ((b ^ a) & (b ^ r)) >> 31;\n");
    reveal_strlit("    ctx->c = b >= a; ctx->v = ((b ^ a) & (b ^ r)) >> 31;");
    reveal_strlit("\n");
    assert("    ctx->c = b >= a; "@ + ("ctx->v = ((b ^ a) & (b ^ r)) >> 31;\n"@ + (rest)) =~= "    ctx->c = b >= a; ctx->v = ((b ^ a) & (b ^ r)) >> 31;"@ + ("\n"@ + (rest)));
}

pub open spec fn rsb_flags_line() -> Program {
    Program::Then(
        Layout::First,
        Statement::Assign(Place::Field(Field::C), Expression::Two(Operator::AtLeast, Box::new(Expression::Local(Name::B)), Box::new(Expression::Local(Name::A)))),
        Box::new(Program::Then(
        Layout::Last,
        Statement::Assign(Place::Field(Field::V), Expression::Two(Operator::Right, Box::new(Expression::Group(Box::new(Expression::Two(Operator::And, Box::new(Expression::Group(Box::new(Expression::Two(Operator::Xor, Box::new(Expression::Local(Name::B)), Box::new(Expression::Local(Name::A)))))), Box::new(Expression::Group(Box::new(Expression::Two(Operator::Xor, Box::new(Expression::Local(Name::B)), Box::new(Expression::Local(Name::R)))))))))), Box::new(Expression::Int(31)))),
        Box::new(Program::End),
    )),
    )
}

pub proof fn lemma_rsb_flags_line()
    ensures
        rsb_flags_line().text() == text::fill("    ctx->c = b >= a; ctx->v = ((b ^ a) & (b ^ r)) >> 31;"@, Seq::<Seq<char>>::empty()).push('\n'),
        rsb_flags_line().grouped(),
{
    reveal_with_fuel(Program::text, 3);
    reveal_with_fuel(Program::grouped, 3);
    lemma_statement_18(Seq::<char>::empty());
    lemma_statement_19("ctx->v = ((b ^ a) & (b ^ r)) >> 31;\n"@ + (Seq::<char>::empty()));
    lemma_text_13("\n"@ + Seq::<char>::empty());
    lemma_letters_13(Seq::<char>::empty());
    reveal_strlit("\n");
    assert(text::fill("    ctx->c = b >= a; ctx->v = ((b ^ a) & (b ^ r)) >> 31;"@, Seq::<Seq<char>>::empty()).push('\n') =~= text::fill("    ctx->c = b >= a; ctx->v = ((b ^ a) & (b ^ r)) >> 31;"@, Seq::<Seq<char>>::empty()) + ("\n"@ + Seq::<char>::empty()));
    assert(rsb_flags_line().text() == text::fill("    ctx->c = b >= a; ctx->v = ((b ^ a) & (b ^ r)) >> 31;"@, Seq::<Seq<char>>::empty()).push('\n'));
}

#[verifier::rlimit(60)]
proof fn lemma_statement_20(rest: Seq<char>)
    ensures
        Layout::Last.around(Statement::Assign(Place::Field(Field::V), Expression::Two(Operator::Right, Box::new(Expression::Group(Box::new(Expression::Two(Operator::And, Box::new(Expression::Group(Box::new(Expression::Two(Operator::Xor, Box::new(Expression::Local(Name::A)), Box::new(Expression::Local(Name::R)))))), Box::new(Expression::Group(Box::new(Expression::Two(Operator::Xor, Box::new(Expression::Local(Name::B)), Box::new(Expression::Local(Name::R)))))))))), Box::new(Expression::Int(31)))).text()) + rest == "ctx->v = ((a ^ r) & (b ^ r)) >> 31;\n"@ + (rest),
        Statement::Assign(Place::Field(Field::V), Expression::Two(Operator::Right, Box::new(Expression::Group(Box::new(Expression::Two(Operator::And, Box::new(Expression::Group(Box::new(Expression::Two(Operator::Xor, Box::new(Expression::Local(Name::A)), Box::new(Expression::Local(Name::R)))))), Box::new(Expression::Group(Box::new(Expression::Two(Operator::Xor, Box::new(Expression::Local(Name::B)), Box::new(Expression::Local(Name::R)))))))))), Box::new(Expression::Int(31)))).grouped(),
{
    reveal_strlit("\n");
    reveal_strlit(" & ");
    reveal_strlit(" = ");
    reveal_strlit(" >> ");
    reveal_strlit(" ^ ");
    reveal_strlit("(");
    reveal_strlit(")");
    reveal_strlit("31");
    reveal_strlit(";");
    reveal_strlit("a");
    reveal_strlit("b");
    reveal_strlit("ctx->v");
    reveal_strlit("ctx->v = ((a ^ r) & (b ^ r)) >> 31;\n");
    reveal_strlit("r");
    small_c::lemma_numbers();
    reveal(Statement::text);
    reveal(Statement::grouped);
    reveal_with_fuel(Expression::text, 7);
    reveal_with_fuel(Expression::grouped, 7);
    assert(Layout::Last.around(Statement::Assign(Place::Field(Field::V), Expression::Two(Operator::Right, Box::new(Expression::Group(Box::new(Expression::Two(Operator::And, Box::new(Expression::Group(Box::new(Expression::Two(Operator::Xor, Box::new(Expression::Local(Name::A)), Box::new(Expression::Local(Name::R)))))), Box::new(Expression::Group(Box::new(Expression::Two(Operator::Xor, Box::new(Expression::Local(Name::B)), Box::new(Expression::Local(Name::R)))))))))), Box::new(Expression::Int(31)))).text()) + rest =~= "ctx->v = ((a ^ r) & (b ^ r)) >> 31;\n"@ + (rest));
}

proof fn lemma_statement_21(rest: Seq<char>)
    ensures
        Layout::First.around(Statement::Assign(Place::Field(Field::C), Expression::Two(Operator::Less, Box::new(Expression::Local(Name::R)), Box::new(Expression::Local(Name::A)))).text()) + rest == "    ctx->c = r < a; "@ + (rest),
        Statement::Assign(Place::Field(Field::C), Expression::Two(Operator::Less, Box::new(Expression::Local(Name::R)), Box::new(Expression::Local(Name::A)))).grouped(),
{
    reveal_strlit(" ");
    reveal_strlit("    ");
    reveal_strlit("    ctx->c = r < a; ");
    reveal_strlit(" < ");
    reveal_strlit(" = ");
    reveal_strlit(";");
    reveal_strlit("a");
    reveal_strlit("ctx->c");
    reveal_strlit("r");
    small_c::lemma_numbers();
    reveal(Statement::text);
    reveal(Statement::grouped);
    reveal_with_fuel(Expression::text, 3);
    reveal_with_fuel(Expression::grouped, 3);
    assert(Layout::First.around(Statement::Assign(Place::Field(Field::C), Expression::Two(Operator::Less, Box::new(Expression::Local(Name::R)), Box::new(Expression::Local(Name::A)))).text()) + rest =~= "    ctx->c = r < a; "@ + (rest));
}

proof fn lemma_text_14(rest: Seq<char>)
    ensures
        text::fill("    ctx->c = r < a; ctx->v = ((a ^ r) & (b ^ r)) >> 31;"@, Seq::<Seq<char>>::empty()) + rest == "    ctx->c = r < a; ctx->v = ((a ^ r) & (b ^ r)) >> 31;"@ + (rest),
{
    lemma_plain("    ctx->c = r < a; ctx->v = ((a ^ r) & (b ^ r)) >> 31;"@);
    assert(text::fill("    ctx->c = r < a; ctx->v = ((a ^ r) & (b ^ r)) >> 31;"@, Seq::<Seq<char>>::empty()) + rest =~= "    ctx->c = r < a; ctx->v = ((a ^ r) & (b ^ r)) >> 31;"@ + (rest));
}

proof fn lemma_letters_14(rest: Seq<char>)
    ensures
        "    ctx->c = r < a; "@ + ("ctx->v = ((a ^ r) & (b ^ r)) >> 31;\n"@ + (rest)) == "    ctx->c = r < a; ctx->v = ((a ^ r) & (b ^ r)) >> 31;"@ + ("\n"@ + (rest)),
{
    reveal_strlit("    ctx->c = r < a; ");
    reveal_strlit("ctx->v = ((a ^ r) & (b ^ r)) >> 31;\n");
    reveal_strlit("    ctx->c = r < a; ctx->v = ((a ^ r) & (b ^ r)) >> 31;");
    reveal_strlit("\n");
    assert("    ctx->c = r < a; "@ + ("ctx->v = ((a ^ r) & (b ^ r)) >> 31;\n"@ + (rest)) =~= "    ctx->c = r < a; ctx->v = ((a ^ r) & (b ^ r)) >> 31;"@ + ("\n"@ + (rest)));
}

pub open spec fn add_flags_line() -> Program {
    Program::Then(
        Layout::First,
        Statement::Assign(Place::Field(Field::C), Expression::Two(Operator::Less, Box::new(Expression::Local(Name::R)), Box::new(Expression::Local(Name::A)))),
        Box::new(Program::Then(
        Layout::Last,
        Statement::Assign(Place::Field(Field::V), Expression::Two(Operator::Right, Box::new(Expression::Group(Box::new(Expression::Two(Operator::And, Box::new(Expression::Group(Box::new(Expression::Two(Operator::Xor, Box::new(Expression::Local(Name::A)), Box::new(Expression::Local(Name::R)))))), Box::new(Expression::Group(Box::new(Expression::Two(Operator::Xor, Box::new(Expression::Local(Name::B)), Box::new(Expression::Local(Name::R)))))))))), Box::new(Expression::Int(31)))),
        Box::new(Program::End),
    )),
    )
}

pub proof fn lemma_add_flags_line()
    ensures
        add_flags_line().text() == text::fill("    ctx->c = r < a; ctx->v = ((a ^ r) & (b ^ r)) >> 31;"@, Seq::<Seq<char>>::empty()).push('\n'),
        add_flags_line().grouped(),
{
    reveal_with_fuel(Program::text, 3);
    reveal_with_fuel(Program::grouped, 3);
    lemma_statement_20(Seq::<char>::empty());
    lemma_statement_21("ctx->v = ((a ^ r) & (b ^ r)) >> 31;\n"@ + (Seq::<char>::empty()));
    lemma_text_14("\n"@ + Seq::<char>::empty());
    lemma_letters_14(Seq::<char>::empty());
    reveal_strlit("\n");
    assert(text::fill("    ctx->c = r < a; ctx->v = ((a ^ r) & (b ^ r)) >> 31;"@, Seq::<Seq<char>>::empty()).push('\n') =~= text::fill("    ctx->c = r < a; ctx->v = ((a ^ r) & (b ^ r)) >> 31;"@, Seq::<Seq<char>>::empty()) + ("\n"@ + Seq::<char>::empty()));
    assert(add_flags_line().text() == text::fill("    ctx->c = r < a; ctx->v = ((a ^ r) & (b ^ r)) >> 31;"@, Seq::<Seq<char>>::empty()).push('\n'));
}

#[verifier::rlimit(60)]
proof fn lemma_statement_22(rest: Seq<char>)
    ensures
        Layout::First.around(Statement::Assign(Place::Field(Field::C), Expression::Two(Operator::Right, Box::new(Expression::Group(Box::new(Expression::Two(Operator::Plus, Box::new(Expression::Two(Operator::Plus, Box::new(Expression::Cast(Type::U64, Box::new(Expression::Local(Name::A)))), Box::new(Expression::Local(Name::B)))), Box::new(Expression::Local(Name::Ci)))))), Box::new(Expression::Int(32)))).text()) + rest == "    ctx->c = ((uint64_t)a + b + ci) >> 32; "@ + (rest),
        Statement::Assign(Place::Field(Field::C), Expression::Two(Operator::Right, Box::new(Expression::Group(Box::new(Expression::Two(Operator::Plus, Box::new(Expression::Two(Operator::Plus, Box::new(Expression::Cast(Type::U64, Box::new(Expression::Local(Name::A)))), Box::new(Expression::Local(Name::B)))), Box::new(Expression::Local(Name::Ci)))))), Box::new(Expression::Int(32)))).grouped(),
{
    reveal_strlit(" ");
    reveal_strlit("    ");
    reveal_strlit("    ctx->c = ((uint64_t)a + b + ci) >> 32; ");
    reveal_strlit(" + ");
    reveal_strlit(" = ");
    reveal_strlit(" >> ");
    reveal_strlit("(");
    reveal_strlit(")");
    reveal_strlit("32");
    reveal_strlit(";");
    reveal_strlit("a");
    reveal_strlit("b");
    reveal_strlit("ci");
    reveal_strlit("ctx->c");
    reveal_strlit("uint64_t");
    small_c::lemma_numbers();
    reveal(Statement::text);
    reveal(Statement::grouped);
    reveal_with_fuel(Expression::text, 7);
    reveal_with_fuel(Expression::grouped, 7);
    assert(Layout::First.around(Statement::Assign(Place::Field(Field::C), Expression::Two(Operator::Right, Box::new(Expression::Group(Box::new(Expression::Two(Operator::Plus, Box::new(Expression::Two(Operator::Plus, Box::new(Expression::Cast(Type::U64, Box::new(Expression::Local(Name::A)))), Box::new(Expression::Local(Name::B)))), Box::new(Expression::Local(Name::Ci)))))), Box::new(Expression::Int(32)))).text()) + rest =~= "    ctx->c = ((uint64_t)a + b + ci) >> 32; "@ + (rest));
}

proof fn lemma_text_15(rest: Seq<char>)
    ensures
        text::fill("    ctx->c = ((uint64_t)a + b + ci) >> 32; ctx->v = ((a ^ r) & (b ^ r)) >> 31;"@, Seq::<Seq<char>>::empty()) + rest == "    ctx->c = ((uint64_t)a + b + ci) >> 32; ctx->v = ((a ^ r) & (b ^ r)) >> 31;"@ + (rest),
{
    lemma_plain("    ctx->c = ((uint64_t)a + b + ci) >> 32; ctx->v = ((a ^ r) & (b ^ r)) >> 31;"@);
    assert(text::fill("    ctx->c = ((uint64_t)a + b + ci) >> 32; ctx->v = ((a ^ r) & (b ^ r)) >> 31;"@, Seq::<Seq<char>>::empty()) + rest =~= "    ctx->c = ((uint64_t)a + b + ci) >> 32; ctx->v = ((a ^ r) & (b ^ r)) >> 31;"@ + (rest));
}

proof fn lemma_letters_15(rest: Seq<char>)
    ensures
        "    ctx->c = ((uint64_t)a + b + ci) >> 32; "@ + ("ctx->v = ((a ^ r) & (b ^ r)) >> 31;\n"@ + (rest)) == "    ctx->c = ((uint64_t)a + b + ci) >> 32; ctx->v = ((a ^ r) & (b ^ r)) >> 31;"@ + ("\n"@ + (rest)),
{
    reveal_strlit("    ctx->c = ((uint64_t)a + b + ci) >> 32; ");
    reveal_strlit("ctx->v = ((a ^ r) & (b ^ r)) >> 31;\n");
    reveal_strlit("    ctx->c = ((uint64_t)a + b + ci) >> 32; ctx->v = ((a ^ r) & (b ^ r)) >> 31;");
    reveal_strlit("\n");
    assert("    ctx->c = ((uint64_t)a + b + ci) >> 32; "@ + ("ctx->v = ((a ^ r) & (b ^ r)) >> 31;\n"@ + (rest)) =~= "    ctx->c = ((uint64_t)a + b + ci) >> 32; ctx->v = ((a ^ r) & (b ^ r)) >> 31;"@ + ("\n"@ + (rest)));
}

pub open spec fn adc_flags_line() -> Program {
    Program::Then(
        Layout::First,
        Statement::Assign(Place::Field(Field::C), Expression::Two(Operator::Right, Box::new(Expression::Group(Box::new(Expression::Two(Operator::Plus, Box::new(Expression::Two(Operator::Plus, Box::new(Expression::Cast(Type::U64, Box::new(Expression::Local(Name::A)))), Box::new(Expression::Local(Name::B)))), Box::new(Expression::Local(Name::Ci)))))), Box::new(Expression::Int(32)))),
        Box::new(Program::Then(
        Layout::Last,
        Statement::Assign(Place::Field(Field::V), Expression::Two(Operator::Right, Box::new(Expression::Group(Box::new(Expression::Two(Operator::And, Box::new(Expression::Group(Box::new(Expression::Two(Operator::Xor, Box::new(Expression::Local(Name::A)), Box::new(Expression::Local(Name::R)))))), Box::new(Expression::Group(Box::new(Expression::Two(Operator::Xor, Box::new(Expression::Local(Name::B)), Box::new(Expression::Local(Name::R)))))))))), Box::new(Expression::Int(31)))),
        Box::new(Program::End),
    )),
    )
}

pub proof fn lemma_adc_flags_line()
    ensures
        adc_flags_line().text() == text::fill("    ctx->c = ((uint64_t)a + b + ci) >> 32; ctx->v = ((a ^ r) & (b ^ r)) >> 31;"@, Seq::<Seq<char>>::empty()).push('\n'),
        adc_flags_line().grouped(),
{
    reveal_with_fuel(Program::text, 3);
    reveal_with_fuel(Program::grouped, 3);
    lemma_statement_20(Seq::<char>::empty());
    lemma_statement_22("ctx->v = ((a ^ r) & (b ^ r)) >> 31;\n"@ + (Seq::<char>::empty()));
    lemma_text_15("\n"@ + Seq::<char>::empty());
    lemma_letters_15(Seq::<char>::empty());
    reveal_strlit("\n");
    assert(text::fill("    ctx->c = ((uint64_t)a + b + ci) >> 32; ctx->v = ((a ^ r) & (b ^ r)) >> 31;"@, Seq::<Seq<char>>::empty()).push('\n') =~= text::fill("    ctx->c = ((uint64_t)a + b + ci) >> 32; ctx->v = ((a ^ r) & (b ^ r)) >> 31;"@, Seq::<Seq<char>>::empty()) + ("\n"@ + Seq::<char>::empty()));
    assert(adc_flags_line().text() == text::fill("    ctx->c = ((uint64_t)a + b + ci) >> 32; ctx->v = ((a ^ r) & (b ^ r)) >> 31;"@, Seq::<Seq<char>>::empty()).push('\n'));
}

#[verifier::rlimit(60)]
proof fn lemma_statement_23(rest: Seq<char>)
    ensures
        Layout::First.around(Statement::Assign(Place::Field(Field::C), Expression::Two(Operator::AtLeast, Box::new(Expression::Cast(Type::U64, Box::new(Expression::Local(Name::A)))), Box::new(Expression::Two(Operator::Plus, Box::new(Expression::Cast(Type::U64, Box::new(Expression::Local(Name::B)))), Box::new(Expression::Not(Box::new(Expression::Local(Name::Ci)))))))).text()) + rest == "    ctx->c = (uint64_t)a >= (uint64_t)b + !ci; "@ + (rest),
        Statement::Assign(Place::Field(Field::C), Expression::Two(Operator::AtLeast, Box::new(Expression::Cast(Type::U64, Box::new(Expression::Local(Name::A)))), Box::new(Expression::Two(Operator::Plus, Box::new(Expression::Cast(Type::U64, Box::new(Expression::Local(Name::B)))), Box::new(Expression::Not(Box::new(Expression::Local(Name::Ci)))))))).grouped(),
{
    reveal_strlit(" ");
    reveal_strlit("    ");
    reveal_strlit("    ctx->c = (uint64_t)a >= (uint64_t)b + !ci; ");
    reveal_strlit(" + ");
    reveal_strlit(" = ");
    reveal_strlit(" >= ");
    reveal_strlit("!");
    reveal_strlit("(");
    reveal_strlit(")");
    reveal_strlit(";");
    reveal_strlit("a");
    reveal_strlit("b");
    reveal_strlit("ci");
    reveal_strlit("ctx->c");
    reveal_strlit("uint64_t");
    small_c::lemma_numbers();
    reveal(Statement::text);
    reveal(Statement::grouped);
    reveal_with_fuel(Expression::text, 5);
    reveal_with_fuel(Expression::grouped, 5);
    assert(Layout::First.around(Statement::Assign(Place::Field(Field::C), Expression::Two(Operator::AtLeast, Box::new(Expression::Cast(Type::U64, Box::new(Expression::Local(Name::A)))), Box::new(Expression::Two(Operator::Plus, Box::new(Expression::Cast(Type::U64, Box::new(Expression::Local(Name::B)))), Box::new(Expression::Not(Box::new(Expression::Local(Name::Ci)))))))).text()) + rest =~= "    ctx->c = (uint64_t)a >= (uint64_t)b + !ci; "@ + (rest));
}

proof fn lemma_text_16(rest: Seq<char>)
    ensures
        text::fill("    ctx->c = (uint64_t)a >= (uint64_t)b + !ci; ctx->v = ((a ^ b) & (a ^ r)) >> 31;"@, Seq::<Seq<char>>::empty()) + rest == "    ctx->c = (uint64_t)a >= (uint64_t)b + !ci; ctx->v = ((a ^ b) & (a ^ r)) >> 31;"@ + (rest),
{
    lemma_plain("    ctx->c = (uint64_t)a >= (uint64_t)b + !ci; ctx->v = ((a ^ b) & (a ^ r)) >> 31;"@);
    assert(text::fill("    ctx->c = (uint64_t)a >= (uint64_t)b + !ci; ctx->v = ((a ^ b) & (a ^ r)) >> 31;"@, Seq::<Seq<char>>::empty()) + rest =~= "    ctx->c = (uint64_t)a >= (uint64_t)b + !ci; ctx->v = ((a ^ b) & (a ^ r)) >> 31;"@ + (rest));
}

proof fn lemma_letters_16(rest: Seq<char>)
    ensures
        "    ctx->c = (uint64_t)a >= (uint64_t)b + !ci; "@ + ("ctx->v = ((a ^ b) & (a ^ r)) >> 31;\n"@ + (rest)) == "    ctx->c = (uint64_t)a >= (uint64_t)b + !ci; ctx->v = ((a ^ b) & (a ^ r)) >> 31;"@ + ("\n"@ + (rest)),
{
    reveal_strlit("    ctx->c = (uint64_t)a >= (uint64_t)b + !ci; ");
    reveal_strlit("ctx->v = ((a ^ b) & (a ^ r)) >> 31;\n");
    reveal_strlit("    ctx->c = (uint64_t)a >= (uint64_t)b + !ci; ctx->v = ((a ^ b) & (a ^ r)) >> 31;");
    reveal_strlit("\n");
    assert("    ctx->c = (uint64_t)a >= (uint64_t)b + !ci; "@ + ("ctx->v = ((a ^ b) & (a ^ r)) >> 31;\n"@ + (rest)) =~= "    ctx->c = (uint64_t)a >= (uint64_t)b + !ci; ctx->v = ((a ^ b) & (a ^ r)) >> 31;"@ + ("\n"@ + (rest)));
}

pub open spec fn sbc_flags_line() -> Program {
    Program::Then(
        Layout::First,
        Statement::Assign(Place::Field(Field::C), Expression::Two(Operator::AtLeast, Box::new(Expression::Cast(Type::U64, Box::new(Expression::Local(Name::A)))), Box::new(Expression::Two(Operator::Plus, Box::new(Expression::Cast(Type::U64, Box::new(Expression::Local(Name::B)))), Box::new(Expression::Not(Box::new(Expression::Local(Name::Ci)))))))),
        Box::new(Program::Then(
        Layout::Last,
        Statement::Assign(Place::Field(Field::V), Expression::Two(Operator::Right, Box::new(Expression::Group(Box::new(Expression::Two(Operator::And, Box::new(Expression::Group(Box::new(Expression::Two(Operator::Xor, Box::new(Expression::Local(Name::A)), Box::new(Expression::Local(Name::B)))))), Box::new(Expression::Group(Box::new(Expression::Two(Operator::Xor, Box::new(Expression::Local(Name::A)), Box::new(Expression::Local(Name::R)))))))))), Box::new(Expression::Int(31)))),
        Box::new(Program::End),
    )),
    )
}

pub proof fn lemma_sbc_flags_line()
    ensures
        sbc_flags_line().text() == text::fill("    ctx->c = (uint64_t)a >= (uint64_t)b + !ci; ctx->v = ((a ^ b) & (a ^ r)) >> 31;"@, Seq::<Seq<char>>::empty()).push('\n'),
        sbc_flags_line().grouped(),
{
    reveal_with_fuel(Program::text, 3);
    reveal_with_fuel(Program::grouped, 3);
    lemma_statement_16(Seq::<char>::empty());
    lemma_statement_23("ctx->v = ((a ^ b) & (a ^ r)) >> 31;\n"@ + (Seq::<char>::empty()));
    lemma_text_16("\n"@ + Seq::<char>::empty());
    lemma_letters_16(Seq::<char>::empty());
    reveal_strlit("\n");
    assert(text::fill("    ctx->c = (uint64_t)a >= (uint64_t)b + !ci; ctx->v = ((a ^ b) & (a ^ r)) >> 31;"@, Seq::<Seq<char>>::empty()).push('\n') =~= text::fill("    ctx->c = (uint64_t)a >= (uint64_t)b + !ci; ctx->v = ((a ^ b) & (a ^ r)) >> 31;"@, Seq::<Seq<char>>::empty()) + ("\n"@ + Seq::<char>::empty()));
    assert(sbc_flags_line().text() == text::fill("    ctx->c = (uint64_t)a >= (uint64_t)b + !ci; ctx->v = ((a ^ b) & (a ^ r)) >> 31;"@, Seq::<Seq<char>>::empty()).push('\n'));
}

#[verifier::rlimit(60)]
proof fn lemma_statement_24(rest: Seq<char>)
    ensures
        Layout::First.around(Statement::Assign(Place::Field(Field::C), Expression::Two(Operator::AtLeast, Box::new(Expression::Cast(Type::U64, Box::new(Expression::Local(Name::B)))), Box::new(Expression::Two(Operator::Plus, Box::new(Expression::Cast(Type::U64, Box::new(Expression::Local(Name::A)))), Box::new(Expression::Not(Box::new(Expression::Local(Name::Ci)))))))).text()) + rest == "    ctx->c = (uint64_t)b >= (uint64_t)a + !ci; "@ + (rest),
        Statement::Assign(Place::Field(Field::C), Expression::Two(Operator::AtLeast, Box::new(Expression::Cast(Type::U64, Box::new(Expression::Local(Name::B)))), Box::new(Expression::Two(Operator::Plus, Box::new(Expression::Cast(Type::U64, Box::new(Expression::Local(Name::A)))), Box::new(Expression::Not(Box::new(Expression::Local(Name::Ci)))))))).grouped(),
{
    reveal_strlit(" ");
    reveal_strlit("    ");
    reveal_strlit("    ctx->c = (uint64_t)b >= (uint64_t)a + !ci; ");
    reveal_strlit(" + ");
    reveal_strlit(" = ");
    reveal_strlit(" >= ");
    reveal_strlit("!");
    reveal_strlit("(");
    reveal_strlit(")");
    reveal_strlit(";");
    reveal_strlit("a");
    reveal_strlit("b");
    reveal_strlit("ci");
    reveal_strlit("ctx->c");
    reveal_strlit("uint64_t");
    small_c::lemma_numbers();
    reveal(Statement::text);
    reveal(Statement::grouped);
    reveal_with_fuel(Expression::text, 5);
    reveal_with_fuel(Expression::grouped, 5);
    assert(Layout::First.around(Statement::Assign(Place::Field(Field::C), Expression::Two(Operator::AtLeast, Box::new(Expression::Cast(Type::U64, Box::new(Expression::Local(Name::B)))), Box::new(Expression::Two(Operator::Plus, Box::new(Expression::Cast(Type::U64, Box::new(Expression::Local(Name::A)))), Box::new(Expression::Not(Box::new(Expression::Local(Name::Ci)))))))).text()) + rest =~= "    ctx->c = (uint64_t)b >= (uint64_t)a + !ci; "@ + (rest));
}

proof fn lemma_text_17(rest: Seq<char>)
    ensures
        text::fill("    ctx->c = (uint64_t)b >= (uint64_t)a + !ci; ctx->v = ((b ^ a) & (b ^ r)) >> 31;"@, Seq::<Seq<char>>::empty()) + rest == "    ctx->c = (uint64_t)b >= (uint64_t)a + !ci; ctx->v = ((b ^ a) & (b ^ r)) >> 31;"@ + (rest),
{
    lemma_plain("    ctx->c = (uint64_t)b >= (uint64_t)a + !ci; ctx->v = ((b ^ a) & (b ^ r)) >> 31;"@);
    assert(text::fill("    ctx->c = (uint64_t)b >= (uint64_t)a + !ci; ctx->v = ((b ^ a) & (b ^ r)) >> 31;"@, Seq::<Seq<char>>::empty()) + rest =~= "    ctx->c = (uint64_t)b >= (uint64_t)a + !ci; ctx->v = ((b ^ a) & (b ^ r)) >> 31;"@ + (rest));
}

proof fn lemma_letters_17(rest: Seq<char>)
    ensures
        "    ctx->c = (uint64_t)b >= (uint64_t)a + !ci; "@ + ("ctx->v = ((b ^ a) & (b ^ r)) >> 31;\n"@ + (rest)) == "    ctx->c = (uint64_t)b >= (uint64_t)a + !ci; ctx->v = ((b ^ a) & (b ^ r)) >> 31;"@ + ("\n"@ + (rest)),
{
    reveal_strlit("    ctx->c = (uint64_t)b >= (uint64_t)a + !ci; ");
    reveal_strlit("ctx->v = ((b ^ a) & (b ^ r)) >> 31;\n");
    reveal_strlit("    ctx->c = (uint64_t)b >= (uint64_t)a + !ci; ctx->v = ((b ^ a) & (b ^ r)) >> 31;");
    reveal_strlit("\n");
    assert("    ctx->c = (uint64_t)b >= (uint64_t)a + !ci; "@ + ("ctx->v = ((b ^ a) & (b ^ r)) >> 31;\n"@ + (rest)) =~= "    ctx->c = (uint64_t)b >= (uint64_t)a + !ci; ctx->v = ((b ^ a) & (b ^ r)) >> 31;"@ + ("\n"@ + (rest)));
}

pub open spec fn rsc_flags_line() -> Program {
    Program::Then(
        Layout::First,
        Statement::Assign(Place::Field(Field::C), Expression::Two(Operator::AtLeast, Box::new(Expression::Cast(Type::U64, Box::new(Expression::Local(Name::B)))), Box::new(Expression::Two(Operator::Plus, Box::new(Expression::Cast(Type::U64, Box::new(Expression::Local(Name::A)))), Box::new(Expression::Not(Box::new(Expression::Local(Name::Ci)))))))),
        Box::new(Program::Then(
        Layout::Last,
        Statement::Assign(Place::Field(Field::V), Expression::Two(Operator::Right, Box::new(Expression::Group(Box::new(Expression::Two(Operator::And, Box::new(Expression::Group(Box::new(Expression::Two(Operator::Xor, Box::new(Expression::Local(Name::B)), Box::new(Expression::Local(Name::A)))))), Box::new(Expression::Group(Box::new(Expression::Two(Operator::Xor, Box::new(Expression::Local(Name::B)), Box::new(Expression::Local(Name::R)))))))))), Box::new(Expression::Int(31)))),
        Box::new(Program::End),
    )),
    )
}

pub proof fn lemma_rsc_flags_line()
    ensures
        rsc_flags_line().text() == text::fill("    ctx->c = (uint64_t)b >= (uint64_t)a + !ci; ctx->v = ((b ^ a) & (b ^ r)) >> 31;"@, Seq::<Seq<char>>::empty()).push('\n'),
        rsc_flags_line().grouped(),
{
    reveal_with_fuel(Program::text, 3);
    reveal_with_fuel(Program::grouped, 3);
    lemma_statement_18(Seq::<char>::empty());
    lemma_statement_24("ctx->v = ((b ^ a) & (b ^ r)) >> 31;\n"@ + (Seq::<char>::empty()));
    lemma_text_17("\n"@ + Seq::<char>::empty());
    lemma_letters_17(Seq::<char>::empty());
    reveal_strlit("\n");
    assert(text::fill("    ctx->c = (uint64_t)b >= (uint64_t)a + !ci; ctx->v = ((b ^ a) & (b ^ r)) >> 31;"@, Seq::<Seq<char>>::empty()).push('\n') =~= text::fill("    ctx->c = (uint64_t)b >= (uint64_t)a + !ci; ctx->v = ((b ^ a) & (b ^ r)) >> 31;"@, Seq::<Seq<char>>::empty()) + ("\n"@ + Seq::<char>::empty()));
    assert(rsc_flags_line().text() == text::fill("    ctx->c = (uint64_t)b >= (uint64_t)a + !ci; ctx->v = ((b ^ a) & (b ^ r)) >> 31;"@, Seq::<Seq<char>>::empty()).push('\n'));
}

proof fn lemma_statement_25(rest: Seq<char>)
    ensures
        Layout::Alone.around(Statement::Assign(Place::Field(Field::C), Expression::Local(Name::Sc)).text()) + rest == "    ctx->c = sc;\n"@ + (rest),
        Statement::Assign(Place::Field(Field::C), Expression::Local(Name::Sc)).grouped(),
{
    reveal_strlit("\n");
    reveal_strlit("    ");
    reveal_strlit("    ctx->c = sc;\n");
    reveal_strlit(" = ");
    reveal_strlit(";");
    reveal_strlit("ctx->c");
    reveal_strlit("sc");
    small_c::lemma_numbers();
    reveal(Statement::text);
    reveal(Statement::grouped);
    reveal_with_fuel(Expression::text, 2);
    reveal_with_fuel(Expression::grouped, 2);
    assert(Layout::Alone.around(Statement::Assign(Place::Field(Field::C), Expression::Local(Name::Sc)).text()) + rest =~= "    ctx->c = sc;\n"@ + (rest));
}

proof fn lemma_text_18(rest: Seq<char>)
    ensures
        text::fill("    ctx->c = sc;"@, Seq::<Seq<char>>::empty()) + rest == "    ctx->c = sc;"@ + (rest),
{
    lemma_plain("    ctx->c = sc;"@);
    assert(text::fill("    ctx->c = sc;"@, Seq::<Seq<char>>::empty()) + rest =~= "    ctx->c = sc;"@ + (rest));
}

proof fn lemma_letters_18(rest: Seq<char>)
    ensures
        "    ctx->c = sc;\n"@ + (rest) == "    ctx->c = sc;"@ + ("\n"@ + (rest)),
{
    reveal_strlit("    ctx->c = sc;\n");
    reveal_strlit("    ctx->c = sc;");
    reveal_strlit("\n");
    assert("    ctx->c = sc;\n"@ + (rest) =~= "    ctx->c = sc;"@ + ("\n"@ + (rest)));
}

pub open spec fn logic_flags_line() -> Program {
    Program::Then(
        Layout::Alone,
        Statement::Assign(Place::Field(Field::C), Expression::Local(Name::Sc)),
        Box::new(Program::End),
    )
}

pub proof fn lemma_logic_flags_line()
    ensures
        logic_flags_line().text() == text::fill("    ctx->c = sc;"@, Seq::<Seq<char>>::empty()).push('\n'),
        logic_flags_line().grouped(),
{
    reveal_with_fuel(Program::text, 2);
    reveal_with_fuel(Program::grouped, 2);
    lemma_statement_25(Seq::<char>::empty());
    lemma_text_18("\n"@ + Seq::<char>::empty());
    lemma_letters_18(Seq::<char>::empty());
    reveal_strlit("\n");
    assert(text::fill("    ctx->c = sc;"@, Seq::<Seq<char>>::empty()).push('\n') =~= text::fill("    ctx->c = sc;"@, Seq::<Seq<char>>::empty()) + ("\n"@ + Seq::<char>::empty()));
    assert(logic_flags_line().text() == text::fill("    ctx->c = sc;"@, Seq::<Seq<char>>::empty()).push('\n'));
}

proof fn lemma_statement_26(rd: nat, rest: Seq<char>)
    ensures
        Layout::Alone.around(Statement::Assign(Place::Register(rd), Expression::Local(Name::R)).text()) + rest == "    ctx->r["@ + (text::dec(rd) + ("] = r;\n"@ + (rest))),
        Statement::Assign(Place::Register(rd), Expression::Local(Name::R)).grouped(),
{
    reveal_strlit("\n");
    reveal_strlit("    ");
    reveal_strlit("    ctx->r[");
    reveal_strlit(" = ");
    reveal_strlit(";");
    reveal_strlit("]");
    reveal_strlit("] = r;\n");
    reveal_strlit("ctx->r[");
    reveal_strlit("r");
    small_c::lemma_numbers();
    reveal(Statement::text);
    reveal(Statement::grouped);
    reveal_with_fuel(Expression::text, 2);
    reveal_with_fuel(Expression::grouped, 2);
    assert(Layout::Alone.around(Statement::Assign(Place::Register(rd), Expression::Local(Name::R)).text()) + rest =~= "    ctx->r["@ + (text::dec(rd) + ("] = r;\n"@ + (rest))));
}

proof fn lemma_text_19(x0: Seq<char>, rest: Seq<char>)
    ensures
        text::fill("    ctx->r[{}] = r;"@, seq![x0]) + rest == "    ctx->r["@ + (x0 + ("] = r;"@ + (rest))),
{
    reveal_strlit("    ctx->r[{}] = r;");
    reveal_strlit("{}");
    reveal_strlit("    ctx->r[");
    reveal_strlit("] = r;");
    assert("    ctx->r[{}] = r;"@ =~= "    ctx->r["@ + "{}"@ + ("] = r;"@));
    let args_0 = seq![x0];
    let args_1 = Seq::<Seq<char>>::empty();
    assert(args_0.skip(1) =~= args_1);
    lemma_hole("    ctx->r["@, "] = r;"@, args_0);
    lemma_plain("] = r;"@);
    assert(text::fill("    ctx->r[{}] = r;"@, seq![x0]) + rest =~= "    ctx->r["@ + (x0 + ("] = r;"@ + (rest))));
}

proof fn lemma_letters_19(rest: Seq<char>)
    ensures
        "] = r;\n"@ + (rest) == "] = r;"@ + ("\n"@ + (rest)),
{
    reveal_strlit("] = r;\n");
    reveal_strlit("] = r;");
    reveal_strlit("\n");
    assert("] = r;\n"@ + (rest) =~= "] = r;"@ + ("\n"@ + (rest)));
}

pub open spec fn register_line(rd: nat) -> Program {
    Program::Then(
        Layout::Alone,
        Statement::Assign(Place::Register(rd), Expression::Local(Name::R)),
        Box::new(Program::End),
    )
}

pub proof fn lemma_register_line(rd: nat)
    ensures
        register_line(rd).text() == text::fill("    ctx->r[{}] = r;"@, seq![text::dec(rd)]).push('\n'),
        register_line(rd).grouped(),
{
    reveal_with_fuel(Program::text, 2);
    reveal_with_fuel(Program::grouped, 2);
    lemma_statement_26(rd, Seq::<char>::empty());
    lemma_text_19(text::dec(rd), "\n"@ + Seq::<char>::empty());
    lemma_letters_19(Seq::<char>::empty());
    reveal_strlit("\n");
    assert(text::fill("    ctx->r[{}] = r;"@, seq![text::dec(rd)]).push('\n') =~= text::fill("    ctx->r[{}] = r;"@, seq![text::dec(rd)]) + ("\n"@ + Seq::<char>::empty()));
    assert(register_line(rd).text() == text::fill("    ctx->r[{}] = r;"@, seq![text::dec(rd)]).push('\n'));
}

proof fn lemma_statement_27(rest: Seq<char>)
    ensures
        Layout::Last.around(Statement::Back.text()) + rest == "return;\n"@ + (rest),
        Statement::Back.grouped(),
{
    reveal_strlit("\n");
    reveal_strlit("return;");
    reveal_strlit("return;\n");
    small_c::lemma_numbers();
    reveal(Statement::text);
    reveal(Statement::grouped);
    reveal_with_fuel(Expression::text, 2);
    reveal_with_fuel(Expression::grouped, 2);
    assert(Layout::Last.around(Statement::Back.text()) + rest =~= "return;\n"@ + (rest));
}

proof fn lemma_statement_28(rest: Seq<char>)
    ensures
        Layout::First.around(Statement::Assign(Place::Register(15), Expression::Two(Operator::And, Box::new(Expression::Local(Name::R)), Box::new(Expression::Flip(Box::new(Expression::Unsigned(3)))))).text()) + rest == "    ctx->r[15] = r & ~3u; "@ + (rest),
        Statement::Assign(Place::Register(15), Expression::Two(Operator::And, Box::new(Expression::Local(Name::R)), Box::new(Expression::Flip(Box::new(Expression::Unsigned(3)))))).grouped(),
{
    reveal_strlit(" ");
    reveal_strlit("    ");
    reveal_strlit("    ctx->r[15] = r & ~3u; ");
    reveal_strlit(" & ");
    reveal_strlit(" = ");
    reveal_strlit("15");
    reveal_strlit("3");
    reveal_strlit(";");
    reveal_strlit("]");
    reveal_strlit("ctx->r[");
    reveal_strlit("r");
    reveal_strlit("u");
    reveal_strlit("~");
    small_c::lemma_numbers();
    reveal(Statement::text);
    reveal(Statement::grouped);
    reveal_with_fuel(Expression::text, 4);
    reveal_with_fuel(Expression::grouped, 4);
    assert(Layout::First.around(Statement::Assign(Place::Register(15), Expression::Two(Operator::And, Box::new(Expression::Local(Name::R)), Box::new(Expression::Flip(Box::new(Expression::Unsigned(3)))))).text()) + rest =~= "    ctx->r[15] = r & ~3u; "@ + (rest));
}

proof fn lemma_text_20(rest: Seq<char>)
    ensures
        text::fill("    ctx->r[15] = r & ~3u; return;"@, Seq::<Seq<char>>::empty()) + rest == "    ctx->r[15] = r & ~3u; return;"@ + (rest),
{
    lemma_plain("    ctx->r[15] = r & ~3u; return;"@);
    assert(text::fill("    ctx->r[15] = r & ~3u; return;"@, Seq::<Seq<char>>::empty()) + rest =~= "    ctx->r[15] = r & ~3u; return;"@ + (rest));
}

proof fn lemma_letters_20(rest: Seq<char>)
    ensures
        "    ctx->r[15] = r & ~3u; "@ + ("return;\n"@ + (rest)) == "    ctx->r[15] = r & ~3u; return;"@ + ("\n"@ + (rest)),
{
    reveal_strlit("    ctx->r[15] = r & ~3u; ");
    reveal_strlit("return;\n");
    reveal_strlit("    ctx->r[15] = r & ~3u; return;");
    reveal_strlit("\n");
    assert("    ctx->r[15] = r & ~3u; "@ + ("return;\n"@ + (rest)) =~= "    ctx->r[15] = r & ~3u; return;"@ + ("\n"@ + (rest)));
}

pub open spec fn back_line() -> Program {
    Program::Then(
        Layout::First,
        Statement::Assign(Place::Register(15), Expression::Two(Operator::And, Box::new(Expression::Local(Name::R)), Box::new(Expression::Flip(Box::new(Expression::Unsigned(3)))))),
        Box::new(Program::Then(
        Layout::Last,
        Statement::Back,
        Box::new(Program::End),
    )),
    )
}

pub proof fn lemma_back_line()
    ensures
        back_line().text() == text::fill("    ctx->r[15] = r & ~3u; return;"@, Seq::<Seq<char>>::empty()).push('\n'),
        back_line().grouped(),
{
    reveal_with_fuel(Program::text, 3);
    reveal_with_fuel(Program::grouped, 3);
    lemma_statement_27(Seq::<char>::empty());
    lemma_statement_28("return;\n"@ + (Seq::<char>::empty()));
    lemma_text_20("\n"@ + Seq::<char>::empty());
    lemma_letters_20(Seq::<char>::empty());
    reveal_strlit("\n");
    assert(text::fill("    ctx->r[15] = r & ~3u; return;"@, Seq::<Seq<char>>::empty()).push('\n') =~= text::fill("    ctx->r[15] = r & ~3u; return;"@, Seq::<Seq<char>>::empty()) + ("\n"@ + Seq::<char>::empty()));
    assert(back_line().text() == text::fill("    ctx->r[15] = r & ~3u; return;"@, Seq::<Seq<char>>::empty()).push('\n'));
}

proof fn lemma_statement_29(rest: Seq<char>)
    ensures
        Layout::Last.around(Statement::Dispatch.text()) + rest == "goto dispatch;\n"@ + (rest),
        Statement::Dispatch.grouped(),
{
    reveal_strlit("\n");
    reveal_strlit("goto dispatch;");
    reveal_strlit("goto dispatch;\n");
    small_c::lemma_numbers();
    reveal(Statement::text);
    reveal(Statement::grouped);
    reveal_with_fuel(Expression::text, 2);
    reveal_with_fuel(Expression::grouped, 2);
    assert(Layout::Last.around(Statement::Dispatch.text()) + rest =~= "goto dispatch;\n"@ + (rest));
}

proof fn lemma_statement_30(rest: Seq<char>)
    ensures
        Layout::First.around(Statement::Assign(Place::Local(Name::Target), Expression::Two(Operator::And, Box::new(Expression::Local(Name::R)), Box::new(Expression::Flip(Box::new(Expression::Unsigned(3)))))).text()) + rest == "    target = r & ~3u; "@ + (rest),
        Statement::Assign(Place::Local(Name::Target), Expression::Two(Operator::And, Box::new(Expression::Local(Name::R)), Box::new(Expression::Flip(Box::new(Expression::Unsigned(3)))))).grouped(),
{
    reveal_strlit(" ");
    reveal_strlit("    ");
    reveal_strlit("    target = r & ~3u; ");
    reveal_strlit(" & ");
    reveal_strlit(" = ");
    reveal_strlit("3");
    reveal_strlit(";");
    reveal_strlit("r");
    reveal_strlit("target");
    reveal_strlit("u");
    reveal_strlit("~");
    small_c::lemma_numbers();
    reveal(Statement::text);
    reveal(Statement::grouped);
    reveal_with_fuel(Expression::text, 4);
    reveal_with_fuel(Expression::grouped, 4);
    assert(Layout::First.around(Statement::Assign(Place::Local(Name::Target), Expression::Two(Operator::And, Box::new(Expression::Local(Name::R)), Box::new(Expression::Flip(Box::new(Expression::Unsigned(3)))))).text()) + rest =~= "    target = r & ~3u; "@ + (rest));
}

proof fn lemma_text_21(rest: Seq<char>)
    ensures
        text::fill("    target = r & ~3u; goto dispatch;"@, Seq::<Seq<char>>::empty()) + rest == "    target = r & ~3u; goto dispatch;"@ + (rest),
{
    lemma_plain("    target = r & ~3u; goto dispatch;"@);
    assert(text::fill("    target = r & ~3u; goto dispatch;"@, Seq::<Seq<char>>::empty()) + rest =~= "    target = r & ~3u; goto dispatch;"@ + (rest));
}

proof fn lemma_letters_21(rest: Seq<char>)
    ensures
        "    target = r & ~3u; "@ + ("goto dispatch;\n"@ + (rest)) == "    target = r & ~3u; goto dispatch;"@ + ("\n"@ + (rest)),
{
    reveal_strlit("    target = r & ~3u; ");
    reveal_strlit("goto dispatch;\n");
    reveal_strlit("    target = r & ~3u; goto dispatch;");
    reveal_strlit("\n");
    assert("    target = r & ~3u; "@ + ("goto dispatch;\n"@ + (rest)) =~= "    target = r & ~3u; goto dispatch;"@ + ("\n"@ + (rest)));
}

pub open spec fn dispatch_line() -> Program {
    Program::Then(
        Layout::First,
        Statement::Assign(Place::Local(Name::Target), Expression::Two(Operator::And, Box::new(Expression::Local(Name::R)), Box::new(Expression::Flip(Box::new(Expression::Unsigned(3)))))),
        Box::new(Program::Then(
        Layout::Last,
        Statement::Dispatch,
        Box::new(Program::End),
    )),
    )
}

pub proof fn lemma_dispatch_line()
    ensures
        dispatch_line().text() == text::fill("    target = r & ~3u; goto dispatch;"@, Seq::<Seq<char>>::empty()).push('\n'),
        dispatch_line().grouped(),
{
    reveal_with_fuel(Program::text, 3);
    reveal_with_fuel(Program::grouped, 3);
    lemma_statement_29(Seq::<char>::empty());
    lemma_statement_30("goto dispatch;\n"@ + (Seq::<char>::empty()));
    lemma_text_21("\n"@ + Seq::<char>::empty());
    lemma_letters_21(Seq::<char>::empty());
    reveal_strlit("\n");
    assert(text::fill("    target = r & ~3u; goto dispatch;"@, Seq::<Seq<char>>::empty()).push('\n') =~= text::fill("    target = r & ~3u; goto dispatch;"@, Seq::<Seq<char>>::empty()) + ("\n"@ + Seq::<char>::empty()));
    assert(dispatch_line().text() == text::fill("    target = r & ~3u; goto dispatch;"@, Seq::<Seq<char>>::empty()).push('\n'));
}

pub open spec fn and_expression() -> Expression {
    Expression::Two(Operator::And, Box::new(Expression::Local(Name::A)), Box::new(Expression::Local(Name::B)))
}

pub proof fn lemma_and_expression()
    ensures
        and_expression().text() == "a & b"@,
        and_expression().grouped(),
{
    reveal_strlit(" & ");
    reveal_strlit("a");
    reveal_strlit("a & b");
    reveal_strlit("b");
    small_c::lemma_numbers();
    assert("a & b"@ == "a & b"@);
    reveal_with_fuel(Expression::text, 3);
    reveal_with_fuel(Expression::grouped, 3);
    let whole = "a & b"@ + Seq::<char>::empty();
    assert(whole =~= "a & b"@);
    assert(and_expression().text() =~= whole);
}

pub open spec fn eor_expression() -> Expression {
    Expression::Two(Operator::Xor, Box::new(Expression::Local(Name::A)), Box::new(Expression::Local(Name::B)))
}

pub proof fn lemma_eor_expression()
    ensures
        eor_expression().text() == "a ^ b"@,
        eor_expression().grouped(),
{
    reveal_strlit(" ^ ");
    reveal_strlit("a");
    reveal_strlit("a ^ b");
    reveal_strlit("b");
    small_c::lemma_numbers();
    assert("a ^ b"@ == "a ^ b"@);
    reveal_with_fuel(Expression::text, 3);
    reveal_with_fuel(Expression::grouped, 3);
    let whole = "a ^ b"@ + Seq::<char>::empty();
    assert(whole =~= "a ^ b"@);
    assert(eor_expression().text() =~= whole);
}

pub open spec fn sub_expression() -> Expression {
    Expression::Two(Operator::Minus, Box::new(Expression::Local(Name::A)), Box::new(Expression::Local(Name::B)))
}

pub proof fn lemma_sub_expression()
    ensures
        sub_expression().text() == "a - b"@,
        sub_expression().grouped(),
{
    reveal_strlit(" - ");
    reveal_strlit("a");
    reveal_strlit("a - b");
    reveal_strlit("b");
    small_c::lemma_numbers();
    assert("a - b"@ == "a - b"@);
    reveal_with_fuel(Expression::text, 3);
    reveal_with_fuel(Expression::grouped, 3);
    let whole = "a - b"@ + Seq::<char>::empty();
    assert(whole =~= "a - b"@);
    assert(sub_expression().text() =~= whole);
}

pub open spec fn rsb_expression() -> Expression {
    Expression::Two(Operator::Minus, Box::new(Expression::Local(Name::B)), Box::new(Expression::Local(Name::A)))
}

pub proof fn lemma_rsb_expression()
    ensures
        rsb_expression().text() == "b - a"@,
        rsb_expression().grouped(),
{
    reveal_strlit(" - ");
    reveal_strlit("a");
    reveal_strlit("b");
    reveal_strlit("b - a");
    small_c::lemma_numbers();
    assert("b - a"@ == "b - a"@);
    reveal_with_fuel(Expression::text, 3);
    reveal_with_fuel(Expression::grouped, 3);
    let whole = "b - a"@ + Seq::<char>::empty();
    assert(whole =~= "b - a"@);
    assert(rsb_expression().text() =~= whole);
}

pub open spec fn add_expression() -> Expression {
    Expression::Two(Operator::Plus, Box::new(Expression::Local(Name::A)), Box::new(Expression::Local(Name::B)))
}

pub proof fn lemma_add_expression()
    ensures
        add_expression().text() == "a + b"@,
        add_expression().grouped(),
{
    reveal_strlit(" + ");
    reveal_strlit("a");
    reveal_strlit("a + b");
    reveal_strlit("b");
    small_c::lemma_numbers();
    assert("a + b"@ == "a + b"@);
    reveal_with_fuel(Expression::text, 3);
    reveal_with_fuel(Expression::grouped, 3);
    let whole = "a + b"@ + Seq::<char>::empty();
    assert(whole =~= "a + b"@);
    assert(add_expression().text() =~= whole);
}

pub open spec fn adc_expression() -> Expression {
    Expression::Two(Operator::Plus, Box::new(Expression::Two(Operator::Plus, Box::new(Expression::Local(Name::A)), Box::new(Expression::Local(Name::B)))), Box::new(Expression::Local(Name::Ci)))
}

pub proof fn lemma_adc_expression()
    ensures
        adc_expression().text() == "a + b + ci"@,
        adc_expression().grouped(),
{
    reveal_strlit(" + ");
    reveal_strlit("a");
    reveal_strlit("a + b + ci");
    reveal_strlit("b");
    reveal_strlit("ci");
    small_c::lemma_numbers();
    assert("a + b + ci"@ == "a + b + ci"@);
    reveal_with_fuel(Expression::text, 4);
    reveal_with_fuel(Expression::grouped, 4);
    let whole = "a + b + ci"@ + Seq::<char>::empty();
    assert(whole =~= "a + b + ci"@);
    assert(adc_expression().text() =~= whole);
}

pub open spec fn sbc_expression() -> Expression {
    Expression::Two(Operator::Minus, Box::new(Expression::Two(Operator::Minus, Box::new(Expression::Local(Name::A)), Box::new(Expression::Local(Name::B)))), Box::new(Expression::Not(Box::new(Expression::Local(Name::Ci)))))
}

pub proof fn lemma_sbc_expression()
    ensures
        sbc_expression().text() == "a - b - !ci"@,
        sbc_expression().grouped(),
{
    reveal_strlit(" - ");
    reveal_strlit("!");
    reveal_strlit("a");
    reveal_strlit("a - b - !ci");
    reveal_strlit("b");
    reveal_strlit("ci");
    small_c::lemma_numbers();
    assert("a - b - !ci"@ == "a - b - !ci"@);
    reveal_with_fuel(Expression::text, 4);
    reveal_with_fuel(Expression::grouped, 4);
    let whole = "a - b - !ci"@ + Seq::<char>::empty();
    assert(whole =~= "a - b - !ci"@);
    assert(sbc_expression().text() =~= whole);
}

pub open spec fn rsc_expression() -> Expression {
    Expression::Two(Operator::Minus, Box::new(Expression::Two(Operator::Minus, Box::new(Expression::Local(Name::B)), Box::new(Expression::Local(Name::A)))), Box::new(Expression::Not(Box::new(Expression::Local(Name::Ci)))))
}

pub proof fn lemma_rsc_expression()
    ensures
        rsc_expression().text() == "b - a - !ci"@,
        rsc_expression().grouped(),
{
    reveal_strlit(" - ");
    reveal_strlit("!");
    reveal_strlit("a");
    reveal_strlit("b");
    reveal_strlit("b - a - !ci");
    reveal_strlit("ci");
    small_c::lemma_numbers();
    assert("b - a - !ci"@ == "b - a - !ci"@);
    reveal_with_fuel(Expression::text, 4);
    reveal_with_fuel(Expression::grouped, 4);
    let whole = "b - a - !ci"@ + Seq::<char>::empty();
    assert(whole =~= "b - a - !ci"@);
    assert(rsc_expression().text() =~= whole);
}

pub open spec fn orr_expression() -> Expression {
    Expression::Two(Operator::Or, Box::new(Expression::Local(Name::A)), Box::new(Expression::Local(Name::B)))
}

pub proof fn lemma_orr_expression()
    ensures
        orr_expression().text() == "a | b"@,
        orr_expression().grouped(),
{
    reveal_strlit(" | ");
    reveal_strlit("a");
    reveal_strlit("a | b");
    reveal_strlit("b");
    small_c::lemma_numbers();
    assert("a | b"@ == "a | b"@);
    reveal_with_fuel(Expression::text, 3);
    reveal_with_fuel(Expression::grouped, 3);
    let whole = "a | b"@ + Seq::<char>::empty();
    assert(whole =~= "a | b"@);
    assert(orr_expression().text() =~= whole);
}

pub open spec fn mov_expression() -> Expression {
    Expression::Local(Name::B)
}

pub proof fn lemma_mov_expression()
    ensures
        mov_expression().text() == "b"@,
        mov_expression().grouped(),
{
    reveal_strlit("b");
    small_c::lemma_numbers();
    assert("b"@ == "b"@);
    reveal_with_fuel(Expression::text, 2);
    reveal_with_fuel(Expression::grouped, 2);
    let whole = "b"@ + Seq::<char>::empty();
    assert(whole =~= "b"@);
    assert(mov_expression().text() =~= whole);
}

pub open spec fn bic_expression() -> Expression {
    Expression::Two(Operator::And, Box::new(Expression::Local(Name::A)), Box::new(Expression::Flip(Box::new(Expression::Local(Name::B)))))
}

pub proof fn lemma_bic_expression()
    ensures
        bic_expression().text() == "a & ~b"@,
        bic_expression().grouped(),
{
    reveal_strlit(" & ");
    reveal_strlit("a");
    reveal_strlit("a & ~b");
    reveal_strlit("b");
    reveal_strlit("~");
    small_c::lemma_numbers();
    assert("a & ~b"@ == "a & ~b"@);
    reveal_with_fuel(Expression::text, 4);
    reveal_with_fuel(Expression::grouped, 4);
    let whole = "a & ~b"@ + Seq::<char>::empty();
    assert(whole =~= "a & ~b"@);
    assert(bic_expression().text() =~= whole);
}

pub open spec fn mvn_expression() -> Expression {
    Expression::Flip(Box::new(Expression::Local(Name::B)))
}

pub proof fn lemma_mvn_expression()
    ensures
        mvn_expression().text() == "~b"@,
        mvn_expression().grouped(),
{
    reveal_strlit("b");
    reveal_strlit("~");
    reveal_strlit("~b");
    small_c::lemma_numbers();
    assert("~b"@ == "~b"@);
    reveal_with_fuel(Expression::text, 3);
    reveal_with_fuel(Expression::grouped, 3);
    let whole = "~b"@ + Seq::<char>::empty();
    assert(whole =~= "~b"@);
    assert(mvn_expression().text() =~= whole);
}

pub open spec fn m_expression() -> Expression {
    Expression::Local(Name::M)
}

pub proof fn lemma_m_expression()
    ensures
        m_expression().text() == "m"@,
        m_expression().grouped(),
{
    reveal_strlit("m");
    small_c::lemma_numbers();
    assert("m"@ == "m"@);
    reveal_with_fuel(Expression::text, 2);
    reveal_with_fuel(Expression::grouped, 2);
    let whole = "m"@ + Seq::<char>::empty();
    assert(whole =~= "m"@);
    assert(m_expression().text() =~= whole);
}

pub open spec fn c_expression() -> Expression {
    Expression::Field(Field::C)
}

pub proof fn lemma_c_expression()
    ensures
        c_expression().text() == "ctx->c"@,
        c_expression().grouped(),
{
    reveal_strlit("ctx->c");
    small_c::lemma_numbers();
    assert("ctx->c"@ == "ctx->c"@);
    reveal_with_fuel(Expression::text, 2);
    reveal_with_fuel(Expression::grouped, 2);
    let whole = "ctx->c"@ + Seq::<char>::empty();
    assert(whole =~= "ctx->c"@);
    assert(c_expression().text() =~= whole);
}

pub open spec fn zero_expression() -> Expression {
    Expression::Int(0)
}

pub proof fn lemma_zero_expression()
    ensures
        zero_expression().text() == "0"@,
        zero_expression().grouped(),
{
    reveal_strlit("0");
    small_c::lemma_numbers();
    assert("0"@ == "0"@);
    reveal_with_fuel(Expression::text, 2);
    reveal_with_fuel(Expression::grouped, 2);
    let whole = "0"@ + Seq::<char>::empty();
    assert(whole =~= "0"@);
    assert(zero_expression().text() =~= whole);
}

pub open spec fn top_expression() -> Expression {
    Expression::Two(Operator::Right, Box::new(Expression::Local(Name::M)), Box::new(Expression::Int(31)))
}

pub proof fn lemma_top_expression()
    ensures
        top_expression().text() == "m >> 31"@,
        top_expression().grouped(),
{
    reveal_strlit(" >> ");
    reveal_strlit("31");
    reveal_strlit("m");
    reveal_strlit("m >> 31");
    small_c::lemma_numbers();
    assert("m >> 31"@ == "m >> 31"@);
    reveal_with_fuel(Expression::text, 3);
    reveal_with_fuel(Expression::grouped, 3);
    let whole = "m >> 31"@ + Seq::<char>::empty();
    assert(whole =~= "m >> 31"@);
    assert(top_expression().text() =~= whole);
}

pub open spec fn bottom_expression() -> Expression {
    Expression::Two(Operator::And, Box::new(Expression::Local(Name::M)), Box::new(Expression::Int(1)))
}

pub proof fn lemma_bottom_expression()
    ensures
        bottom_expression().text() == "m & 1"@,
        bottom_expression().grouped(),
{
    reveal_strlit(" & ");
    reveal_strlit("1");
    reveal_strlit("m");
    reveal_strlit("m & 1");
    small_c::lemma_numbers();
    assert("m & 1"@ == "m & 1"@);
    reveal_with_fuel(Expression::text, 3);
    reveal_with_fuel(Expression::grouped, 3);
    let whole = "m & 1"@ + Seq::<char>::empty();
    assert(whole =~= "m & 1"@);
    assert(bottom_expression().text() =~= whole);
}

proof fn lemma_text_22(x0: Seq<char>, rest: Seq<char>)
    ensures
        text::fill("m << {}"@, seq![x0]) + rest == "m << "@ + (x0 + (rest)),
{
    reveal_strlit("m << {}");
    reveal_strlit("{}");
    reveal_strlit("m << ");
    reveal_strlit("");
    assert("m << {}"@ =~= "m << "@ + "{}"@ + (""@));
    let args_0 = seq![x0];
    let args_1 = Seq::<Seq<char>>::empty();
    assert(args_0.skip(1) =~= args_1);
    lemma_hole("m << "@, ""@, args_0);
    lemma_plain(""@);
    assert(text::fill("m << {}"@, seq![x0]) + rest =~= "m << "@ + (x0 + (rest)));
}

pub open spec fn left_expression(n: nat) -> Expression {
    Expression::Two(Operator::Left, Box::new(Expression::Local(Name::M)), Box::new(Expression::Int(n)))
}

pub proof fn lemma_left_expression(n: nat)
    ensures
        left_expression(n).text() == text::fill("m << {}"@, seq![text::dec(n)]),
        left_expression(n).grouped(),
{
    reveal_strlit(" << ");
    reveal_strlit("m");
    reveal_strlit("m << ");
    small_c::lemma_numbers();
    lemma_text_22(text::dec(n), Seq::<char>::empty());
    reveal_with_fuel(Expression::text, 3);
    reveal_with_fuel(Expression::grouped, 3);
    let whole = text::fill("m << {}"@, seq![text::dec(n)]) + Seq::<char>::empty();
    assert(whole =~= text::fill("m << {}"@, seq![text::dec(n)]));
    assert(left_expression(n).text() =~= whole);
}

proof fn lemma_text_23(x0: Seq<char>, rest: Seq<char>)
    ensures
        text::fill("m >> {}"@, seq![x0]) + rest == "m >> "@ + (x0 + (rest)),
{
    reveal_strlit("m >> {}");
    reveal_strlit("{}");
    reveal_strlit("m >> ");
    reveal_strlit("");
    assert("m >> {}"@ =~= "m >> "@ + "{}"@ + (""@));
    let args_0 = seq![x0];
    let args_1 = Seq::<Seq<char>>::empty();
    assert(args_0.skip(1) =~= args_1);
    lemma_hole("m >> "@, ""@, args_0);
    lemma_plain(""@);
    assert(text::fill("m >> {}"@, seq![x0]) + rest =~= "m >> "@ + (x0 + (rest)));
}

pub open spec fn right_expression(n: nat) -> Expression {
    Expression::Two(Operator::Right, Box::new(Expression::Local(Name::M)), Box::new(Expression::Int(n)))
}

pub proof fn lemma_right_expression(n: nat)
    ensures
        right_expression(n).text() == text::fill("m >> {}"@, seq![text::dec(n)]),
        right_expression(n).grouped(),
{
    reveal_strlit(" >> ");
    reveal_strlit("m");
    reveal_strlit("m >> ");
    small_c::lemma_numbers();
    lemma_text_23(text::dec(n), Seq::<char>::empty());
    reveal_with_fuel(Expression::text, 3);
    reveal_with_fuel(Expression::grouped, 3);
    let whole = text::fill("m >> {}"@, seq![text::dec(n)]) + Seq::<char>::empty();
    assert(whole =~= text::fill("m >> {}"@, seq![text::dec(n)]));
    assert(right_expression(n).text() =~= whole);
}

proof fn lemma_text_24(x0: Seq<char>, rest: Seq<char>)
    ensures
        text::fill("(m >> {}) & 1"@, seq![x0]) + rest == "(m >> "@ + (x0 + (") & 1"@ + (rest))),
{
    reveal_strlit("(m >> {}) & 1");
    reveal_strlit("{}");
    reveal_strlit("(m >> ");
    reveal_strlit(") & 1");
    assert("(m >> {}) & 1"@ =~= "(m >> "@ + "{}"@ + (") & 1"@));
    let args_0 = seq![x0];
    let args_1 = Seq::<Seq<char>>::empty();
    assert(args_0.skip(1) =~= args_1);
    lemma_hole("(m >> "@, ") & 1"@, args_0);
    lemma_plain(") & 1"@);
    assert(text::fill("(m >> {}) & 1"@, seq![x0]) + rest =~= "(m >> "@ + (x0 + (") & 1"@ + (rest))));
}

pub open spec fn bit_expression(n: nat) -> Expression {
    Expression::Two(Operator::And, Box::new(Expression::Group(Box::new(Expression::Two(Operator::Right, Box::new(Expression::Local(Name::M)), Box::new(Expression::Int(n)))))), Box::new(Expression::Int(1)))
}

#[verifier::rlimit(60)]
pub proof fn lemma_bit_expression(n: nat)
    ensures
        bit_expression(n).text() == text::fill("(m >> {}) & 1"@, seq![text::dec(n)]),
        bit_expression(n).grouped(),
{
    reveal_strlit(" & ");
    reveal_strlit(" >> ");
    reveal_strlit("(");
    reveal_strlit("(m >> ");
    reveal_strlit(")");
    reveal_strlit(") & 1");
    reveal_strlit("1");
    reveal_strlit("m");
    small_c::lemma_numbers();
    lemma_text_24(text::dec(n), Seq::<char>::empty());
    reveal_with_fuel(Expression::text, 5);
    reveal_with_fuel(Expression::grouped, 5);
    let whole = text::fill("(m >> {}) & 1"@, seq![text::dec(n)]) + Seq::<char>::empty();
    assert(whole =~= text::fill("(m >> {}) & 1"@, seq![text::dec(n)]));
    assert(bit_expression(n).text() =~= whole);
}

proof fn lemma_text_25(x0: Seq<char>, rest: Seq<char>)
    ensures
        text::fill("(uint32_t)((int32_t)m >> {})"@, seq![x0]) + rest == "(uint32_t)((int32_t)m >> "@ + (x0 + (")"@ + (rest))),
{
    reveal_strlit("(uint32_t)((int32_t)m >> {})");
    reveal_strlit("{}");
    reveal_strlit("(uint32_t)((int32_t)m >> ");
    reveal_strlit(")");
    assert("(uint32_t)((int32_t)m >> {})"@ =~= "(uint32_t)((int32_t)m >> "@ + "{}"@ + (")"@));
    let args_0 = seq![x0];
    let args_1 = Seq::<Seq<char>>::empty();
    assert(args_0.skip(1) =~= args_1);
    lemma_hole("(uint32_t)((int32_t)m >> "@, ")"@, args_0);
    lemma_plain(")"@);
    assert(text::fill("(uint32_t)((int32_t)m >> {})"@, seq![x0]) + rest =~= "(uint32_t)((int32_t)m >> "@ + (x0 + (")"@ + (rest))));
}

pub open spec fn signed_expression(n: nat) -> Expression {
    Expression::Cast(Type::U32, Box::new(Expression::Group(Box::new(Expression::Two(Operator::Right, Box::new(Expression::Cast(Type::I32, Box::new(Expression::Local(Name::M)))), Box::new(Expression::Int(n)))))))
}

#[verifier::rlimit(60)]
pub proof fn lemma_signed_expression(n: nat)
    ensures
        signed_expression(n).text() == text::fill("(uint32_t)((int32_t)m >> {})"@, seq![text::dec(n)]),
        signed_expression(n).grouped(),
{
    reveal_strlit(" >> ");
    reveal_strlit("(");
    reveal_strlit("(uint32_t)((int32_t)m >> ");
    reveal_strlit(")");
    reveal_strlit("int32_t");
    reveal_strlit("m");
    reveal_strlit("uint32_t");
    small_c::lemma_numbers();
    lemma_text_25(text::dec(n), Seq::<char>::empty());
    reveal_with_fuel(Expression::text, 6);
    reveal_with_fuel(Expression::grouped, 6);
    let whole = text::fill("(uint32_t)((int32_t)m >> {})"@, seq![text::dec(n)]) + Seq::<char>::empty();
    assert(whole =~= text::fill("(uint32_t)((int32_t)m >> {})"@, seq![text::dec(n)]));
    assert(signed_expression(n).text() =~= whole);
}

pub open spec fn all_signed_expression() -> Expression {
    Expression::Cast(Type::U32, Box::new(Expression::Group(Box::new(Expression::Two(Operator::Right, Box::new(Expression::Cast(Type::I32, Box::new(Expression::Local(Name::M)))), Box::new(Expression::Int(31)))))))
}

#[verifier::rlimit(60)]
pub proof fn lemma_all_signed_expression()
    ensures
        all_signed_expression().text() == "(uint32_t)((int32_t)m >> 31)"@,
        all_signed_expression().grouped(),
{
    reveal_strlit(" >> ");
    reveal_strlit("(");
    reveal_strlit("(uint32_t)((int32_t)m >> 31)");
    reveal_strlit(")");
    reveal_strlit("31");
    reveal_strlit("int32_t");
    reveal_strlit("m");
    reveal_strlit("uint32_t");
    small_c::lemma_numbers();
    assert("(uint32_t)((int32_t)m >> 31)"@ == "(uint32_t)((int32_t)m >> 31)"@);
    reveal_with_fuel(Expression::text, 6);
    reveal_with_fuel(Expression::grouped, 6);
    let whole = "(uint32_t)((int32_t)m >> 31)"@ + Seq::<char>::empty();
    assert(whole =~= "(uint32_t)((int32_t)m >> 31)"@);
    assert(all_signed_expression().text() =~= whole);
}

pub open spec fn through_expression() -> Expression {
    Expression::Two(Operator::Or, Box::new(Expression::Group(Box::new(Expression::Two(Operator::Left, Box::new(Expression::Cast(Type::U32, Box::new(Expression::Field(Field::C)))), Box::new(Expression::Int(31)))))), Box::new(Expression::Group(Box::new(Expression::Two(Operator::Right, Box::new(Expression::Local(Name::M)), Box::new(Expression::Int(1)))))))
}

#[verifier::rlimit(60)]
pub proof fn lemma_through_expression()
    ensures
        through_expression().text() == "((uint32_t)ctx->c << 31) | (m >> 1)"@,
        through_expression().grouped(),
{
    reveal_strlit(" << ");
    reveal_strlit(" >> ");
    reveal_strlit(" | ");
    reveal_strlit("(");
    reveal_strlit("((uint32_t)ctx->c << 31) | (m >> 1)");
    reveal_strlit(")");
    reveal_strlit("1");
    reveal_strlit("31");
    reveal_strlit("ctx->c");
    reveal_strlit("m");
    reveal_strlit("uint32_t");
    small_c::lemma_numbers();
    assert("((uint32_t)ctx->c << 31) | (m >> 1)"@ == "((uint32_t)ctx->c << 31) | (m >> 1)"@);
    reveal_with_fuel(Expression::text, 6);
    reveal_with_fuel(Expression::grouped, 6);
    let whole = "((uint32_t)ctx->c << 31) | (m >> 1)"@ + Seq::<char>::empty();
    assert(whole =~= "((uint32_t)ctx->c << 31) | (m >> 1)"@);
    assert(through_expression().text() =~= whole);
}

proof fn lemma_text_26(x0: Seq<char>, x1: Seq<char>, rest: Seq<char>)
    ensures
        text::fill("(m >> {}) | (m << {})"@, seq![x0, x1]) + rest == "(m >> "@ + (x0 + (") | (m << "@ + (x1 + (")"@ + (rest))))),
{
    reveal_strlit("(m >> {}) | (m << {})");
    reveal_strlit("{}");
    reveal_strlit("(m >> ");
    reveal_strlit(") | (m << ");
    reveal_strlit(")");
    assert("(m >> {}) | (m << {})"@ =~= "(m >> "@ + "{}"@ + (") | (m << "@ + "{}"@ + (")"@)));
    let args_0 = seq![x0, x1];
    let args_1 = seq![x1];
    let args_2 = Seq::<Seq<char>>::empty();
    assert(args_0.skip(1) =~= args_1);
    assert(args_1.skip(1) =~= args_2);
    lemma_hole("(m >> "@, ") | (m << "@ + "{}"@ + (")"@), args_0);
    lemma_hole(") | (m << "@, ")"@, args_1);
    lemma_plain(")"@);
    assert(text::fill("(m >> {}) | (m << {})"@, seq![x0, x1]) + rest =~= "(m >> "@ + (x0 + (") | (m << "@ + (x1 + (")"@ + (rest))))));
}

pub open spec fn around_expression(n: nat, rest: nat) -> Expression {
    Expression::Two(Operator::Or, Box::new(Expression::Group(Box::new(Expression::Two(Operator::Right, Box::new(Expression::Local(Name::M)), Box::new(Expression::Int(n)))))), Box::new(Expression::Group(Box::new(Expression::Two(Operator::Left, Box::new(Expression::Local(Name::M)), Box::new(Expression::Int(rest)))))))
}

#[verifier::rlimit(60)]
pub proof fn lemma_around_expression(n: nat, rest: nat)
    ensures
        around_expression(n, rest).text() == text::fill("(m >> {}) | (m << {})"@, seq![text::dec(n), text::dec(rest)]),
        around_expression(n, rest).grouped(),
{
    reveal_strlit(" << ");
    reveal_strlit(" >> ");
    reveal_strlit(" | ");
    reveal_strlit("(");
    reveal_strlit("(m >> ");
    reveal_strlit(")");
    reveal_strlit(") | (m << ");
    reveal_strlit("m");
    small_c::lemma_numbers();
    lemma_text_26(text::dec(n), text::dec(rest), Seq::<char>::empty());
    reveal_with_fuel(Expression::text, 5);
    reveal_with_fuel(Expression::grouped, 5);
    let whole = text::fill("(m >> {}) | (m << {})"@, seq![text::dec(n), text::dec(rest)]) + Seq::<char>::empty();
    assert(whole =~= text::fill("(m >> {}) | (m << {})"@, seq![text::dec(n), text::dec(rest)]));
    assert(around_expression(n, rest).text() =~= whole);
}

proof fn lemma_text_27(x0: Seq<char>, rest: Seq<char>)
    ensures
        text::fill("ctx->r[{}]"@, seq![x0]) + rest == "ctx->r["@ + (x0 + ("]"@ + (rest))),
{
    reveal_strlit("ctx->r[{}]");
    reveal_strlit("{}");
    reveal_strlit("ctx->r[");
    reveal_strlit("]");
    assert("ctx->r[{}]"@ =~= "ctx->r["@ + "{}"@ + ("]"@));
    let args_0 = seq![x0];
    let args_1 = Seq::<Seq<char>>::empty();
    assert(args_0.skip(1) =~= args_1);
    lemma_hole("ctx->r["@, "]"@, args_0);
    lemma_plain("]"@);
    assert(text::fill("ctx->r[{}]"@, seq![x0]) + rest =~= "ctx->r["@ + (x0 + ("]"@ + (rest))));
}

pub open spec fn register_expression(number: nat) -> Expression {
    Expression::Register(number)
}

pub proof fn lemma_register_expression(number: nat)
    ensures
        register_expression(number).text() == text::fill("ctx->r[{}]"@, seq![text::dec(number)]),
        register_expression(number).grouped(),
{
    reveal_strlit("]");
    reveal_strlit("ctx->r[");
    small_c::lemma_numbers();
    lemma_text_27(text::dec(number), Seq::<char>::empty());
    reveal_with_fuel(Expression::text, 2);
    reveal_with_fuel(Expression::grouped, 2);
    let whole = text::fill("ctx->r[{}]"@, seq![text::dec(number)]) + Seq::<char>::empty();
    assert(whole =~= text::fill("ctx->r[{}]"@, seq![text::dec(number)]));
    assert(register_expression(number).text() =~= whole);
}

proof fn lemma_text_28(x0: Seq<char>, rest: Seq<char>)
    ensures
        text::fill("0x{}u"@, seq![x0]) + rest == "0x"@ + (x0 + ("u"@ + (rest))),
{
    reveal_strlit("0x{}u");
    reveal_strlit("{}");
    reveal_strlit("0x");
    reveal_strlit("u");
    assert("0x{}u"@ =~= "0x"@ + "{}"@ + ("u"@));
    let args_0 = seq![x0];
    let args_1 = Seq::<Seq<char>>::empty();
    assert(args_0.skip(1) =~= args_1);
    lemma_hole("0x"@, "u"@, args_0);
    lemma_plain("u"@);
    assert(text::fill("0x{}u"@, seq![x0]) + rest =~= "0x"@ + (x0 + ("u"@ + (rest))));
}

pub open spec fn plain_address(number: nat) -> Expression {
    Expression::Hex { number: number, width: 8, unsigned: true }
}

pub proof fn lemma_plain_address(number: nat)
    ensures
        plain_address(number).text() == text::fill("0x{}u"@, seq![text::hex_wide(number, 8)]),
        plain_address(number).grouped(),
{
    reveal_strlit("0x");
    reveal_strlit("u");
    small_c::lemma_numbers();
    lemma_text_28(text::hex_wide(number, 8), Seq::<char>::empty());
    reveal_with_fuel(Expression::text, 2);
    reveal_with_fuel(Expression::grouped, 2);
    let whole = text::fill("0x{}u"@, seq![text::hex_wide(number, 8)]) + Seq::<char>::empty();
    assert(whole =~= text::fill("0x{}u"@, seq![text::hex_wide(number, 8)]));
    assert(plain_address(number).text() =~= whole);
}

proof fn lemma_text_29(x0: Seq<char>, rest: Seq<char>)
    ensures
        text::fill("(module + 0x{}u)"@, seq![x0]) + rest == "(module + 0x"@ + (x0 + ("u)"@ + (rest))),
{
    reveal_strlit("(module + 0x{}u)");
    reveal_strlit("{}");
    reveal_strlit("(module + 0x");
    reveal_strlit("u)");
    assert("(module + 0x{}u)"@ =~= "(module + 0x"@ + "{}"@ + ("u)"@));
    let args_0 = seq![x0];
    let args_1 = Seq::<Seq<char>>::empty();
    assert(args_0.skip(1) =~= args_1);
    lemma_hole("(module + 0x"@, "u)"@, args_0);
    lemma_plain("u)"@);
    assert(text::fill("(module + 0x{}u)"@, seq![x0]) + rest =~= "(module + 0x"@ + (x0 + ("u)"@ + (rest))));
}

pub open spec fn module_address(number: nat) -> Expression {
    Expression::Group(Box::new(Expression::Two(Operator::Plus, Box::new(Expression::Module), Box::new(Expression::Hex { number: number, width: 8, unsigned: true }))))
}

pub proof fn lemma_module_address(number: nat)
    ensures
        module_address(number).text() == text::fill("(module + 0x{}u)"@, seq![text::hex_wide(number, 8)]),
        module_address(number).grouped(),
{
    reveal_strlit(" + ");
    reveal_strlit("(");
    reveal_strlit("(module + 0x");
    reveal_strlit(")");
    reveal_strlit("0x");
    reveal_strlit("module");
    reveal_strlit("u");
    reveal_strlit("u)");
    small_c::lemma_numbers();
    lemma_text_29(text::hex_wide(number, 8), Seq::<char>::empty());
    reveal_with_fuel(Expression::text, 4);
    reveal_with_fuel(Expression::grouped, 4);
    let whole = text::fill("(module + 0x{}u)"@, seq![text::hex_wide(number, 8)]) + Seq::<char>::empty();
    assert(whole =~= text::fill("(module + 0x{}u)"@, seq![text::hex_wide(number, 8)]));
    assert(module_address(number).text() =~= whole);
}

} // verus!
