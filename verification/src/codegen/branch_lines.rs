//! the lines that the C for branches is made of.

use crate::codegen::small_c;
use crate::codegen::small_c::{
    lemma_hole, lemma_plain, Declared, Expression, Field, Layout, Name, Operator, Place, Program,
    Routine, Statement, Type,
};
use crate::text;
use vstd::prelude::*;

verus! {

proof fn lemma_statement_0(target: u32, rest: Seq<char>)
    ensures
        Layout::Alone.around(Statement::Goto(target).text()) + rest == "    goto L_"@ + (text::hex_wide(target as nat, 8) + (";\n"@ + (rest))),
        Statement::Goto(target).grouped(),
{
    reveal_strlit("\n");
    reveal_strlit("    ");
    reveal_strlit("    goto L_");
    reveal_strlit(";");
    reveal_strlit(";\n");
    reveal_strlit("goto L_");
    small_c::lemma_numbers();
    reveal(Statement::text);
    reveal(Statement::grouped);
    assert(Layout::Alone.around(Statement::Goto(target).text()) + rest =~= "    goto L_"@ + (text::hex_wide(target as nat, 8) + (";\n"@ + (rest))));
}

proof fn lemma_text_0(x0: Seq<char>, rest: Seq<char>)
    ensures
        text::fill("    goto L_{};"@, seq![x0]) + rest == "    goto L_"@ + (x0 + (";"@ + (rest))),
{
    reveal_strlit("    goto L_{};");
    reveal_strlit("{}");
    reveal_strlit("    goto L_");
    reveal_strlit(";");
    assert("    goto L_{};"@ =~= "    goto L_"@ + "{}"@ + (";"@));
    let args_0 = seq![x0];
    let args_1 = Seq::<Seq<char>>::empty();
    assert(args_0.skip(1) =~= args_1);
    lemma_hole("    goto L_"@, ";"@, args_0);
    lemma_plain(";"@);
    assert(text::fill("    goto L_{};"@, seq![x0]) + rest =~= "    goto L_"@ + (x0 + (";"@ + (rest))));
}

proof fn lemma_letters_0(rest: Seq<char>)
    ensures
        ";\n"@ + (rest) == ";"@ + ("\n"@ + (rest)),
{
    reveal_strlit(";\n");
    reveal_strlit(";");
    reveal_strlit("\n");
    assert(";\n"@ + (rest) =~= ";"@ + ("\n"@ + (rest)));
}

pub open spec fn label_line(target: u32) -> Program {
    Program::Then(
        Layout::Alone,
        Statement::Goto(target),
        Box::new(Program::End),
    )
}

pub proof fn lemma_label_line(target: u32)
    ensures
        label_line(target).text() == text::fill("    goto L_{};"@, seq![text::hex_wide(target as nat, 8)]).push('\n'),
        label_line(target).grouped(),
{
    reveal_with_fuel(Program::text, 2);
    reveal_with_fuel(Program::grouped, 2);
    lemma_statement_0(target, Seq::<char>::empty());
    lemma_text_0(text::hex_wide(target as nat, 8), "\n"@ + Seq::<char>::empty());
    lemma_letters_0(Seq::<char>::empty());
    reveal_strlit("\n");
    assert(text::fill("    goto L_{};"@, seq![text::hex_wide(target as nat, 8)]).push('\n') =~= text::fill("    goto L_{};"@, seq![text::hex_wide(target as nat, 8)]) + ("\n"@ + Seq::<char>::empty()));
    assert(label_line(target).text() == text::fill("    goto L_{};"@, seq![text::hex_wide(target as nat, 8)]).push('\n'));
}

proof fn lemma_statement_1(rest: Seq<char>)
    ensures
        Layout::Last.around(Statement::Back.text()) + rest == "return;\n"@ + (rest),
        Statement::Back.grouped(),
{
    reveal_strlit("\n");
    reveal_strlit("return;");
    reveal_strlit("return;\n");
    small_c::lemma_numbers();
    reveal(Statement::text);
    reveal(Statement::grouped);
    reveal_with_fuel(Expression::text, 2);
    reveal_with_fuel(Expression::grouped, 2);
    assert(Layout::Last.around(Statement::Back.text()) + rest =~= "return;\n"@ + (rest));
}

proof fn lemma_statement_2(routine: Routine, rest: Seq<char>)
    ensures
        Layout::Middle.around(Statement::Enter(routine).text()) + rest == "CALL("@ + (routine.text() + ("); "@ + (rest))),
        Statement::Enter(routine).grouped(),
{
    reveal_strlit(" ");
    reveal_strlit(");");
    reveal_strlit("); ");
    reveal_strlit("CALL(");
    small_c::lemma_numbers();
    reveal(Statement::text);
    reveal(Statement::grouped);
    assert(Layout::Middle.around(Statement::Enter(routine).text()) + rest =~= "CALL("@ + (routine.text() + ("); "@ + (rest))));
}

proof fn lemma_statement_3(x: Expression, rest: Seq<char>)
    requires
        x.grouped(),
    ensures
        Layout::First.around(Statement::Assign(Place::Register(15), x).text()) + rest == "    ctx->r[15] = "@ + (x.text() + ("; "@ + (rest))),
        Statement::Assign(Place::Register(15), x).grouped(),
{
    reveal_strlit(" ");
    reveal_strlit("    ");
    reveal_strlit("    ctx->r[15] = ");
    reveal_strlit(" = ");
    reveal_strlit("15");
    reveal_strlit(";");
    reveal_strlit("; ");
    reveal_strlit("]");
    reveal_strlit("ctx->r[");
    small_c::lemma_numbers();
    reveal(Statement::text);
    reveal(Statement::grouped);
    assert(Layout::First.around(Statement::Assign(Place::Register(15), x).text()) + rest =~= "    ctx->r[15] = "@ + (x.text() + ("; "@ + (rest))));
}

proof fn lemma_text_1(x0: Seq<char>, x1: Seq<char>, rest: Seq<char>)
    ensures
        text::fill("    ctx->r[15] = {}; CALL({}); return;"@, seq![x0, x1]) + rest == "    ctx->r[15] = "@ + (x0 + ("; CALL("@ + (x1 + ("); return;"@ + (rest))))),
{
    reveal_strlit("    ctx->r[15] = {}; CALL({}); return;");
    reveal_strlit("{}");
    reveal_strlit("    ctx->r[15] = ");
    reveal_strlit("; CALL(");
    reveal_strlit("); return;");
    assert("    ctx->r[15] = {}; CALL({}); return;"@ =~= "    ctx->r[15] = "@ + "{}"@ + ("; CALL("@ + "{}"@ + ("); return;"@)));
    let args_0 = seq![x0, x1];
    let args_1 = seq![x1];
    let args_2 = Seq::<Seq<char>>::empty();
    assert(args_0.skip(1) =~= args_1);
    assert(args_1.skip(1) =~= args_2);
    lemma_hole("    ctx->r[15] = "@, "; CALL("@ + "{}"@ + ("); return;"@), args_0);
    lemma_hole("; CALL("@, "); return;"@, args_1);
    lemma_plain("); return;"@);
    assert(text::fill("    ctx->r[15] = {}; CALL({}); return;"@, seq![x0, x1]) + rest =~= "    ctx->r[15] = "@ + (x0 + ("; CALL("@ + (x1 + ("); return;"@ + (rest))))));
}

proof fn lemma_letters_1(rest: Seq<char>)
    ensures
        "); "@ + ("return;\n"@ + (rest)) == "); return;"@ + ("\n"@ + (rest)),
{
    reveal_strlit("); ");
    reveal_strlit("return;\n");
    reveal_strlit("); return;");
    reveal_strlit("\n");
    assert("); "@ + ("return;\n"@ + (rest)) =~= "); return;"@ + ("\n"@ + (rest)));
}

proof fn lemma_letters_2(rest: Seq<char>)
    ensures
        "; "@ + ("CALL("@ + (rest)) == "; CALL("@ + (rest),
{
    reveal_strlit("; ");
    reveal_strlit("CALL(");
    reveal_strlit("; CALL(");
    assert("; "@ + ("CALL("@ + (rest)) =~= "; CALL("@ + (rest));
}

pub open spec fn tail_line(x: Expression, routine: Routine) -> Program {
    Program::Then(
        Layout::First,
        Statement::Assign(Place::Register(15), x),
        Box::new(Program::Then(
        Layout::Middle,
        Statement::Enter(routine),
        Box::new(Program::Then(
        Layout::Last,
        Statement::Back,
        Box::new(Program::End),
    )),
    )),
    )
}

pub proof fn lemma_tail_line(x: Expression, routine: Routine)
    requires
        x.grouped(),
    ensures
        tail_line(x, routine).text() == text::fill("    ctx->r[15] = {}; CALL({}); return;"@, seq![x.text(), routine.text()]).push('\n'),
        tail_line(x, routine).grouped(),
{
    reveal_with_fuel(Program::text, 4);
    reveal_with_fuel(Program::grouped, 4);
    lemma_statement_1(Seq::<char>::empty());
    lemma_statement_2(routine, "return;\n"@ + (Seq::<char>::empty()));
    lemma_statement_3(x, "CALL("@ + (routine.text() + ("); "@ + ("return;\n"@ + (Seq::<char>::empty())))));
    lemma_text_1(x.text(), routine.text(), "\n"@ + Seq::<char>::empty());
    lemma_letters_1(Seq::<char>::empty());
    lemma_letters_2(routine.text() + ("); return;"@ + ("\n"@ + (Seq::<char>::empty()))));
    reveal_strlit("\n");
    assert(text::fill("    ctx->r[15] = {}; CALL({}); return;"@, seq![x.text(), routine.text()]).push('\n') =~= text::fill("    ctx->r[15] = {}; CALL({}); return;"@, seq![x.text(), routine.text()]) + ("\n"@ + Seq::<char>::empty()));
    assert(tail_line(x, routine).text() == text::fill("    ctx->r[15] = {}; CALL({}); return;"@, seq![x.text(), routine.text()]).push('\n'));
}

proof fn lemma_statement_4(rest: Seq<char>)
    ensures
        Layout::Last.around(Statement::Dispatch.text()) + rest == "goto dispatch;\n"@ + (rest),
        Statement::Dispatch.grouped(),
{
    reveal_strlit("\n");
    reveal_strlit("goto dispatch;");
    reveal_strlit("goto dispatch;\n");
    small_c::lemma_numbers();
    reveal(Statement::text);
    reveal(Statement::grouped);
    reveal_with_fuel(Expression::text, 2);
    reveal_with_fuel(Expression::grouped, 2);
    assert(Layout::Last.around(Statement::Dispatch.text()) + rest =~= "goto dispatch;\n"@ + (rest));
}

proof fn lemma_statement_5(x: Expression, rest: Seq<char>)
    requires
        x.grouped(),
    ensures
        Layout::First.around(Statement::Assign(Place::Local(Name::Target), x).text()) + rest == "    target = "@ + (x.text() + ("; "@ + (rest))),
        Statement::Assign(Place::Local(Name::Target), x).grouped(),
{
    reveal_strlit(" ");
    reveal_strlit("    ");
    reveal_strlit("    target = ");
    reveal_strlit(" = ");
    reveal_strlit(";");
    reveal_strlit("; ");
    reveal_strlit("target");
    small_c::lemma_numbers();
    reveal(Statement::text);
    reveal(Statement::grouped);
    assert(Layout::First.around(Statement::Assign(Place::Local(Name::Target), x).text()) + rest =~= "    target = "@ + (x.text() + ("; "@ + (rest))));
}

proof fn lemma_text_2(x0: Seq<char>, rest: Seq<char>)
    ensures
        text::fill("    target = {}; goto dispatch;"@, seq![x0]) + rest == "    target = "@ + (x0 + ("; goto dispatch;"@ + (rest))),
{
    reveal_strlit("    target = {}; goto dispatch;");
    reveal_strlit("{}");
    reveal_strlit("    target = ");
    reveal_strlit("; goto dispatch;");
    assert("    target = {}; goto dispatch;"@ =~= "    target = "@ + "{}"@ + ("; goto dispatch;"@));
    let args_0 = seq![x0];
    let args_1 = Seq::<Seq<char>>::empty();
    assert(args_0.skip(1) =~= args_1);
    lemma_hole("    target = "@, "; goto dispatch;"@, args_0);
    lemma_plain("; goto dispatch;"@);
    assert(text::fill("    target = {}; goto dispatch;"@, seq![x0]) + rest =~= "    target = "@ + (x0 + ("; goto dispatch;"@ + (rest))));
}

proof fn lemma_letters_3(rest: Seq<char>)
    ensures
        "; "@ + ("goto dispatch;\n"@ + (rest)) == "; goto dispatch;"@ + ("\n"@ + (rest)),
{
    reveal_strlit("; ");
    reveal_strlit("goto dispatch;\n");
    reveal_strlit("; goto dispatch;");
    reveal_strlit("\n");
    assert("; "@ + ("goto dispatch;\n"@ + (rest)) =~= "; goto dispatch;"@ + ("\n"@ + (rest)));
}

pub open spec fn target_line(x: Expression) -> Program {
    Program::Then(
        Layout::First,
        Statement::Assign(Place::Local(Name::Target), x),
        Box::new(Program::Then(
        Layout::Last,
        Statement::Dispatch,
        Box::new(Program::End),
    )),
    )
}

pub proof fn lemma_target_line(x: Expression)
    requires
        x.grouped(),
    ensures
        target_line(x).text() == text::fill("    target = {}; goto dispatch;"@, seq![x.text()]).push('\n'),
        target_line(x).grouped(),
{
    reveal_with_fuel(Program::text, 3);
    reveal_with_fuel(Program::grouped, 3);
    lemma_statement_4(Seq::<char>::empty());
    lemma_statement_5(x, "goto dispatch;\n"@ + (Seq::<char>::empty()));
    lemma_text_2(x.text(), "\n"@ + Seq::<char>::empty());
    lemma_letters_3(Seq::<char>::empty());
    reveal_strlit("\n");
    assert(text::fill("    target = {}; goto dispatch;"@, seq![x.text()]).push('\n') =~= text::fill("    target = {}; goto dispatch;"@, seq![x.text()]) + ("\n"@ + Seq::<char>::empty()));
    assert(target_line(x).text() == text::fill("    target = {}; goto dispatch;"@, seq![x.text()]).push('\n'));
}

proof fn lemma_statement_6(y: Expression, rest: Seq<char>)
    requires
        y.grouped(),
    ensures
        Layout::Last.around(Statement::Assign(Place::Register(15), y).text()) + rest == "ctx->r[15] = "@ + (y.text() + (";\n"@ + (rest))),
        Statement::Assign(Place::Register(15), y).grouped(),
{
    reveal_strlit("\n");
    reveal_strlit(" = ");
    reveal_strlit("15");
    reveal_strlit(";");
    reveal_strlit(";\n");
    reveal_strlit("]");
    reveal_strlit("ctx->r[");
    reveal_strlit("ctx->r[15] = ");
    small_c::lemma_numbers();
    reveal(Statement::text);
    reveal(Statement::grouped);
    assert(Layout::Last.around(Statement::Assign(Place::Register(15), y).text()) + rest =~= "ctx->r[15] = "@ + (y.text() + (";\n"@ + (rest))));
}

proof fn lemma_statement_7(x: Expression, rest: Seq<char>)
    requires
        x.grouped(),
    ensures
        Layout::First.around(Statement::Assign(Place::Register(14), x).text()) + rest == "    ctx->r[14] = "@ + (x.text() + ("; "@ + (rest))),
        Statement::Assign(Place::Register(14), x).grouped(),
{
    reveal_strlit(" ");
    reveal_strlit("    ");
    reveal_strlit("    ctx->r[14] = ");
    reveal_strlit(" = ");
    reveal_strlit("14");
    reveal_strlit(";");
    reveal_strlit("; ");
    reveal_strlit("]");
    reveal_strlit("ctx->r[");
    small_c::lemma_numbers();
    reveal(Statement::text);
    reveal(Statement::grouped);
    assert(Layout::First.around(Statement::Assign(Place::Register(14), x).text()) + rest =~= "    ctx->r[14] = "@ + (x.text() + ("; "@ + (rest))));
}

proof fn lemma_text_3(x0: Seq<char>, x1: Seq<char>, rest: Seq<char>)
    ensures
        text::fill("    ctx->r[14] = {}; ctx->r[15] = {};"@, seq![x0, x1]) + rest == "    ctx->r[14] = "@ + (x0 + ("; ctx->r[15] = "@ + (x1 + (";"@ + (rest))))),
{
    reveal_strlit("    ctx->r[14] = {}; ctx->r[15] = {};");
    reveal_strlit("{}");
    reveal_strlit("    ctx->r[14] = ");
    reveal_strlit("; ctx->r[15] = ");
    reveal_strlit(";");
    assert("    ctx->r[14] = {}; ctx->r[15] = {};"@ =~= "    ctx->r[14] = "@ + "{}"@ + ("; ctx->r[15] = "@ + "{}"@ + (";"@)));
    let args_0 = seq![x0, x1];
    let args_1 = seq![x1];
    let args_2 = Seq::<Seq<char>>::empty();
    assert(args_0.skip(1) =~= args_1);
    assert(args_1.skip(1) =~= args_2);
    lemma_hole("    ctx->r[14] = "@, "; ctx->r[15] = "@ + "{}"@ + (";"@), args_0);
    lemma_hole("; ctx->r[15] = "@, ";"@, args_1);
    lemma_plain(";"@);
    assert(text::fill("    ctx->r[14] = {}; ctx->r[15] = {};"@, seq![x0, x1]) + rest =~= "    ctx->r[14] = "@ + (x0 + ("; ctx->r[15] = "@ + (x1 + (";"@ + (rest))))));
}

proof fn lemma_letters_4(rest: Seq<char>)
    ensures
        "; "@ + ("ctx->r[15] = "@ + (rest)) == "; ctx->r[15] = "@ + (rest),
{
    reveal_strlit("; ");
    reveal_strlit("ctx->r[15] = ");
    reveal_strlit("; ctx->r[15] = ");
    assert("; "@ + ("ctx->r[15] = "@ + (rest)) =~= "; ctx->r[15] = "@ + (rest));
}

pub open spec fn link_line(x: Expression, y: Expression) -> Program {
    Program::Then(
        Layout::First,
        Statement::Assign(Place::Register(14), x),
        Box::new(Program::Then(
        Layout::Last,
        Statement::Assign(Place::Register(15), y),
        Box::new(Program::End),
    )),
    )
}

pub proof fn lemma_link_line(x: Expression, y: Expression)
    requires
        x.grouped(),
        y.grouped(),
    ensures
        link_line(x, y).text() == text::fill("    ctx->r[14] = {}; ctx->r[15] = {};"@, seq![x.text(), y.text()]).push('\n'),
        link_line(x, y).grouped(),
{
    reveal_with_fuel(Program::text, 3);
    reveal_with_fuel(Program::grouped, 3);
    lemma_statement_6(y, Seq::<char>::empty());
    lemma_statement_7(x, "ctx->r[15] = "@ + (y.text() + (";\n"@ + (Seq::<char>::empty()))));
    lemma_text_3(x.text(), y.text(), "\n"@ + Seq::<char>::empty());
    lemma_letters_0(Seq::<char>::empty());
    lemma_letters_4(y.text() + (";"@ + ("\n"@ + (Seq::<char>::empty()))));
    reveal_strlit("\n");
    assert(text::fill("    ctx->r[14] = {}; ctx->r[15] = {};"@, seq![x.text(), y.text()]).push('\n') =~= text::fill("    ctx->r[14] = {}; ctx->r[15] = {};"@, seq![x.text(), y.text()]) + ("\n"@ + Seq::<char>::empty()));
    assert(link_line(x, y).text() == text::fill("    ctx->r[14] = {}; ctx->r[15] = {};"@, seq![x.text(), y.text()]).push('\n'));
}

proof fn lemma_statement_8(rest: Seq<char>)
    ensures
        Layout::Alone.around(Statement::Assign(Place::Field(Field::Thumb), Expression::Int(1)).text()) + rest == "    ctx->thumb = 1;\n"@ + (rest),
        Statement::Assign(Place::Field(Field::Thumb), Expression::Int(1)).grouped(),
{
    reveal_strlit("\n");
    reveal_strlit("    ");
    reveal_strlit("    ctx->thumb = 1;\n");
    reveal_strlit(" = ");
    reveal_strlit("1");
    reveal_strlit(";");
    reveal_strlit("ctx->thumb");
    small_c::lemma_numbers();
    reveal(Statement::text);
    reveal(Statement::grouped);
    reveal_with_fuel(Expression::text, 2);
    reveal_with_fuel(Expression::grouped, 2);
    assert(Layout::Alone.around(Statement::Assign(Place::Field(Field::Thumb), Expression::Int(1)).text()) + rest =~= "    ctx->thumb = 1;\n"@ + (rest));
}

proof fn lemma_text_4(rest: Seq<char>)
    ensures
        text::fill("    ctx->thumb = 1;"@, Seq::<Seq<char>>::empty()) + rest == "    ctx->thumb = 1;"@ + (rest),
{
    lemma_plain("    ctx->thumb = 1;"@);
    assert(text::fill("    ctx->thumb = 1;"@, Seq::<Seq<char>>::empty()) + rest =~= "    ctx->thumb = 1;"@ + (rest));
}

proof fn lemma_letters_5(rest: Seq<char>)
    ensures
        "    ctx->thumb = 1;\n"@ + (rest) == "    ctx->thumb = 1;"@ + ("\n"@ + (rest)),
{
    reveal_strlit("    ctx->thumb = 1;\n");
    reveal_strlit("    ctx->thumb = 1;");
    reveal_strlit("\n");
    assert("    ctx->thumb = 1;\n"@ + (rest) =~= "    ctx->thumb = 1;"@ + ("\n"@ + (rest)));
}

pub open spec fn thumb_line() -> Program {
    Program::Then(
        Layout::Alone,
        Statement::Assign(Place::Field(Field::Thumb), Expression::Int(1)),
        Box::new(Program::End),
    )
}

pub proof fn lemma_thumb_line()
    ensures
        thumb_line().text() == text::fill("    ctx->thumb = 1;"@, Seq::<Seq<char>>::empty()).push('\n'),
        thumb_line().grouped(),
{
    reveal_with_fuel(Program::text, 2);
    reveal_with_fuel(Program::grouped, 2);
    lemma_statement_8(Seq::<char>::empty());
    lemma_text_4("\n"@ + Seq::<char>::empty());
    lemma_letters_5(Seq::<char>::empty());
    reveal_strlit("\n");
    assert(text::fill("    ctx->thumb = 1;"@, Seq::<Seq<char>>::empty()).push('\n') =~= text::fill("    ctx->thumb = 1;"@, Seq::<Seq<char>>::empty()) + ("\n"@ + Seq::<char>::empty()));
    assert(thumb_line().text() == text::fill("    ctx->thumb = 1;"@, Seq::<Seq<char>>::empty()).push('\n'));
}

proof fn lemma_statement_9(rest: Seq<char>)
    ensures
        Layout::Alone.around(Statement::Assign(Place::Field(Field::Thumb), Expression::Int(0)).text()) + rest == "    ctx->thumb = 0;\n"@ + (rest),
        Statement::Assign(Place::Field(Field::Thumb), Expression::Int(0)).grouped(),
{
    reveal_strlit("\n");
    reveal_strlit("    ");
    reveal_strlit("    ctx->thumb = 0;\n");
    reveal_strlit(" = ");
    reveal_strlit("0");
    reveal_strlit(";");
    reveal_strlit("ctx->thumb");
    small_c::lemma_numbers();
    reveal(Statement::text);
    reveal(Statement::grouped);
    reveal_with_fuel(Expression::text, 2);
    reveal_with_fuel(Expression::grouped, 2);
    assert(Layout::Alone.around(Statement::Assign(Place::Field(Field::Thumb), Expression::Int(0)).text()) + rest =~= "    ctx->thumb = 0;\n"@ + (rest));
}

proof fn lemma_text_5(rest: Seq<char>)
    ensures
        text::fill("    ctx->thumb = 0;"@, Seq::<Seq<char>>::empty()) + rest == "    ctx->thumb = 0;"@ + (rest),
{
    lemma_plain("    ctx->thumb = 0;"@);
    assert(text::fill("    ctx->thumb = 0;"@, Seq::<Seq<char>>::empty()) + rest =~= "    ctx->thumb = 0;"@ + (rest));
}

proof fn lemma_letters_6(rest: Seq<char>)
    ensures
        "    ctx->thumb = 0;\n"@ + (rest) == "    ctx->thumb = 0;"@ + ("\n"@ + (rest)),
{
    reveal_strlit("    ctx->thumb = 0;\n");
    reveal_strlit("    ctx->thumb = 0;");
    reveal_strlit("\n");
    assert("    ctx->thumb = 0;\n"@ + (rest) =~= "    ctx->thumb = 0;"@ + ("\n"@ + (rest)));
}

pub open spec fn arm_line() -> Program {
    Program::Then(
        Layout::Alone,
        Statement::Assign(Place::Field(Field::Thumb), Expression::Int(0)),
        Box::new(Program::End),
    )
}

pub proof fn lemma_arm_line()
    ensures
        arm_line().text() == text::fill("    ctx->thumb = 0;"@, Seq::<Seq<char>>::empty()).push('\n'),
        arm_line().grouped(),
{
    reveal_with_fuel(Program::text, 2);
    reveal_with_fuel(Program::grouped, 2);
    lemma_statement_9(Seq::<char>::empty());
    lemma_text_5("\n"@ + Seq::<char>::empty());
    lemma_letters_6(Seq::<char>::empty());
    reveal_strlit("\n");
    assert(text::fill("    ctx->thumb = 0;"@, Seq::<Seq<char>>::empty()).push('\n') =~= text::fill("    ctx->thumb = 0;"@, Seq::<Seq<char>>::empty()) + ("\n"@ + Seq::<char>::empty()));
    assert(arm_line().text() == text::fill("    ctx->thumb = 0;"@, Seq::<Seq<char>>::empty()).push('\n'));
}

proof fn lemma_statement_10(routine: Routine, rest: Seq<char>)
    ensures
        Layout::Alone.around(Statement::Enter(routine).text()) + rest == "    CALL("@ + (routine.text() + (");\n"@ + (rest))),
        Statement::Enter(routine).grouped(),
{
    reveal_strlit("\n");
    reveal_strlit("    ");
    reveal_strlit("    CALL(");
    reveal_strlit(");");
    reveal_strlit(");\n");
    reveal_strlit("CALL(");
    small_c::lemma_numbers();
    reveal(Statement::text);
    reveal(Statement::grouped);
    assert(Layout::Alone.around(Statement::Enter(routine).text()) + rest =~= "    CALL("@ + (routine.text() + (");\n"@ + (rest))));
}

proof fn lemma_text_6(x0: Seq<char>, rest: Seq<char>)
    ensures
        text::fill("    CALL({});"@, seq![x0]) + rest == "    CALL("@ + (x0 + (");"@ + (rest))),
{
    reveal_strlit("    CALL({});");
    reveal_strlit("{}");
    reveal_strlit("    CALL(");
    reveal_strlit(");");
    assert("    CALL({});"@ =~= "    CALL("@ + "{}"@ + (");"@));
    let args_0 = seq![x0];
    let args_1 = Seq::<Seq<char>>::empty();
    assert(args_0.skip(1) =~= args_1);
    lemma_hole("    CALL("@, ");"@, args_0);
    lemma_plain(");"@);
    assert(text::fill("    CALL({});"@, seq![x0]) + rest =~= "    CALL("@ + (x0 + (");"@ + (rest))));
}

proof fn lemma_letters_7(rest: Seq<char>)
    ensures
        ");\n"@ + (rest) == ");"@ + ("\n"@ + (rest)),
{
    reveal_strlit(");\n");
    reveal_strlit(");");
    reveal_strlit("\n");
    assert(");\n"@ + (rest) =~= ");"@ + ("\n"@ + (rest)));
}

pub open spec fn enter_line(routine: Routine) -> Program {
    Program::Then(
        Layout::Alone,
        Statement::Enter(routine),
        Box::new(Program::End),
    )
}

pub proof fn lemma_enter_line(routine: Routine)
    ensures
        enter_line(routine).text() == text::fill("    CALL({});"@, seq![routine.text()]).push('\n'),
        enter_line(routine).grouped(),
{
    reveal_with_fuel(Program::text, 2);
    reveal_with_fuel(Program::grouped, 2);
    lemma_statement_10(routine, Seq::<char>::empty());
    lemma_text_6(routine.text(), "\n"@ + Seq::<char>::empty());
    lemma_letters_7(Seq::<char>::empty());
    reveal_strlit("\n");
    assert(text::fill("    CALL({});"@, seq![routine.text()]).push('\n') =~= text::fill("    CALL({});"@, seq![routine.text()]) + ("\n"@ + Seq::<char>::empty()));
    assert(enter_line(routine).text() == text::fill("    CALL({});"@, seq![routine.text()]).push('\n'));
}

proof fn lemma_statement_11(rest: Seq<char>)
    ensures
        Layout::Alone.around(Statement::Enter(Routine::Any).text()) + rest == "    CALL(recomp_call);\n"@ + (rest),
        Statement::Enter(Routine::Any).grouped(),
{
    reveal_strlit("\n");
    reveal_strlit("    ");
    reveal_strlit("    CALL(recomp_call);\n");
    reveal_strlit(");");
    reveal_strlit("CALL(");
    reveal_strlit("recomp_call");
    small_c::lemma_numbers();
    reveal(Statement::text);
    reveal(Statement::grouped);
    assert(Layout::Alone.around(Statement::Enter(Routine::Any).text()) + rest =~= "    CALL(recomp_call);\n"@ + (rest));
}

proof fn lemma_text_7(rest: Seq<char>)
    ensures
        text::fill("    CALL(recomp_call);"@, Seq::<Seq<char>>::empty()) + rest == "    CALL(recomp_call);"@ + (rest),
{
    lemma_plain("    CALL(recomp_call);"@);
    assert(text::fill("    CALL(recomp_call);"@, Seq::<Seq<char>>::empty()) + rest =~= "    CALL(recomp_call);"@ + (rest));
}

proof fn lemma_letters_8(rest: Seq<char>)
    ensures
        "    CALL(recomp_call);\n"@ + (rest) == "    CALL(recomp_call);"@ + ("\n"@ + (rest)),
{
    reveal_strlit("    CALL(recomp_call);\n");
    reveal_strlit("    CALL(recomp_call);");
    reveal_strlit("\n");
    assert("    CALL(recomp_call);\n"@ + (rest) =~= "    CALL(recomp_call);"@ + ("\n"@ + (rest)));
}

pub open spec fn enter_any_line() -> Program {
    Program::Then(
        Layout::Alone,
        Statement::Enter(Routine::Any),
        Box::new(Program::End),
    )
}

pub proof fn lemma_enter_any_line()
    ensures
        enter_any_line().text() == text::fill("    CALL(recomp_call);"@, Seq::<Seq<char>>::empty()).push('\n'),
        enter_any_line().grouped(),
{
    reveal_with_fuel(Program::text, 2);
    reveal_with_fuel(Program::grouped, 2);
    lemma_statement_11(Seq::<char>::empty());
    lemma_text_7("\n"@ + Seq::<char>::empty());
    lemma_letters_8(Seq::<char>::empty());
    reveal_strlit("\n");
    assert(text::fill("    CALL(recomp_call);"@, Seq::<Seq<char>>::empty()).push('\n') =~= text::fill("    CALL(recomp_call);"@, Seq::<Seq<char>>::empty()) + ("\n"@ + Seq::<char>::empty()));
    assert(enter_any_line().text() == text::fill("    CALL(recomp_call);"@, Seq::<Seq<char>>::empty()).push('\n'));
}

proof fn lemma_statement_12(x: Expression, rest: Seq<char>)
    requires
        x.grouped(),
    ensures
        Layout::Alone.around(Statement::Expect(false, x).text()) + rest == "    RETURNED("@ + (x.text() + (");\n"@ + (rest))),
        Statement::Expect(false, x).grouped(),
{
    reveal_strlit("\n");
    reveal_strlit("    ");
    reveal_strlit("    RETURNED(");
    reveal_strlit(");");
    reveal_strlit(");\n");
    reveal_strlit("RETURNED(");
    small_c::lemma_numbers();
    reveal(Statement::text);
    reveal(Statement::grouped);
    assert(Layout::Alone.around(Statement::Expect(false, x).text()) + rest =~= "    RETURNED("@ + (x.text() + (");\n"@ + (rest))));
}

proof fn lemma_text_8(x0: Seq<char>, x1: Seq<char>, rest: Seq<char>)
    ensures
        text::fill("    {}({});"@, seq![x0, x1]) + rest == "    "@ + (x0 + ("("@ + (x1 + (");"@ + (rest))))),
{
    reveal_strlit("    {}({});");
    reveal_strlit("{}");
    reveal_strlit("    ");
    reveal_strlit("(");
    reveal_strlit(");");
    assert("    {}({});"@ =~= "    "@ + "{}"@ + ("("@ + "{}"@ + (");"@)));
    let args_0 = seq![x0, x1];
    let args_1 = seq![x1];
    let args_2 = Seq::<Seq<char>>::empty();
    assert(args_0.skip(1) =~= args_1);
    assert(args_1.skip(1) =~= args_2);
    lemma_hole("    "@, "("@ + "{}"@ + (");"@), args_0);
    lemma_hole("("@, ");"@, args_1);
    lemma_plain(");"@);
    assert(text::fill("    {}({});"@, seq![x0, x1]) + rest =~= "    "@ + (x0 + ("("@ + (x1 + (");"@ + (rest))))));
}

proof fn lemma_letters_9(rest: Seq<char>)
    ensures
        "    RETURNED("@ + (rest) == "    "@ + ("RETURNED"@ + ("("@ + (rest))),
{
    reveal_strlit("    RETURNED(");
    reveal_strlit("    ");
    reveal_strlit("RETURNED");
    reveal_strlit("(");
    assert("    RETURNED("@ + (rest) =~= "    "@ + ("RETURNED"@ + ("("@ + (rest))));
}

pub open spec fn expect_line(x: Expression) -> Program {
    Program::Then(
        Layout::Alone,
        Statement::Expect(false, x),
        Box::new(Program::End),
    )
}

pub proof fn lemma_expect_line(x: Expression)
    requires
        x.grouped(),
    ensures
        expect_line(x).text() == text::fill("    {}({});"@, seq!["RETURNED"@, x.text()]).push('\n'),
        expect_line(x).grouped(),
{
    reveal_with_fuel(Program::text, 2);
    reveal_with_fuel(Program::grouped, 2);
    lemma_statement_12(x, Seq::<char>::empty());
    assert("RETURNED"@ == "RETURNED"@);
    lemma_text_8("RETURNED"@, x.text(), "\n"@ + Seq::<char>::empty());
    lemma_letters_7(Seq::<char>::empty());
    lemma_letters_9(x.text() + (");"@ + ("\n"@ + (Seq::<char>::empty()))));
    reveal_strlit("\n");
    assert(text::fill("    {}({});"@, seq!["RETURNED"@, x.text()]).push('\n') =~= text::fill("    {}({});"@, seq!["RETURNED"@, x.text()]) + ("\n"@ + Seq::<char>::empty()));
    assert(expect_line(x).text() == text::fill("    {}({});"@, seq!["RETURNED"@, x.text()]).push('\n'));
}

proof fn lemma_statement_13(x: Expression, rest: Seq<char>)
    requires
        x.grouped(),
    ensures
        Layout::Alone.around(Statement::Expect(true, x).text()) + rest == "    RETURNED_T("@ + (x.text() + (");\n"@ + (rest))),
        Statement::Expect(true, x).grouped(),
{
    reveal_strlit("\n");
    reveal_strlit("    ");
    reveal_strlit("    RETURNED_T(");
    reveal_strlit(");");
    reveal_strlit(");\n");
    reveal_strlit("RETURNED_T(");
    small_c::lemma_numbers();
    reveal(Statement::text);
    reveal(Statement::grouped);
    assert(Layout::Alone.around(Statement::Expect(true, x).text()) + rest =~= "    RETURNED_T("@ + (x.text() + (");\n"@ + (rest))));
}

proof fn lemma_letters_10(rest: Seq<char>)
    ensures
        "    RETURNED_T("@ + (rest) == "    "@ + ("RETURNED_T"@ + ("("@ + (rest))),
{
    reveal_strlit("    RETURNED_T(");
    reveal_strlit("    ");
    reveal_strlit("RETURNED_T");
    reveal_strlit("(");
    assert("    RETURNED_T("@ + (rest) =~= "    "@ + ("RETURNED_T"@ + ("("@ + (rest))));
}

pub open spec fn expect_thumb_line(x: Expression) -> Program {
    Program::Then(
        Layout::Alone,
        Statement::Expect(true, x),
        Box::new(Program::End),
    )
}

pub proof fn lemma_expect_thumb_line(x: Expression)
    requires
        x.grouped(),
    ensures
        expect_thumb_line(x).text() == text::fill("    {}({});"@, seq!["RETURNED_T"@, x.text()]).push('\n'),
        expect_thumb_line(x).grouped(),
{
    reveal_with_fuel(Program::text, 2);
    reveal_with_fuel(Program::grouped, 2);
    lemma_statement_13(x, Seq::<char>::empty());
    assert("RETURNED_T"@ == "RETURNED_T"@);
    lemma_text_8("RETURNED_T"@, x.text(), "\n"@ + Seq::<char>::empty());
    lemma_letters_7(Seq::<char>::empty());
    lemma_letters_10(x.text() + (");"@ + ("\n"@ + (Seq::<char>::empty()))));
    reveal_strlit("\n");
    assert(text::fill("    {}({});"@, seq!["RETURNED_T"@, x.text()]).push('\n') =~= text::fill("    {}({});"@, seq!["RETURNED_T"@, x.text()]) + ("\n"@ + Seq::<char>::empty()));
    assert(expect_thumb_line(x).text() == text::fill("    {}({});"@, seq!["RETURNED_T"@, x.text()]).push('\n'));
}

proof fn lemma_text_9(x0: Seq<char>, rest: Seq<char>)
    ensures
        text::fill("    RETURNED({});"@, seq![x0]) + rest == "    RETURNED("@ + (x0 + (");"@ + (rest))),
{
    reveal_strlit("    RETURNED({});");
    reveal_strlit("{}");
    reveal_strlit("    RETURNED(");
    reveal_strlit(");");
    assert("    RETURNED({});"@ =~= "    RETURNED("@ + "{}"@ + (");"@));
    let args_0 = seq![x0];
    let args_1 = Seq::<Seq<char>>::empty();
    assert(args_0.skip(1) =~= args_1);
    lemma_hole("    RETURNED("@, ");"@, args_0);
    lemma_plain(");"@);
    assert(text::fill("    RETURNED({});"@, seq![x0]) + rest =~= "    RETURNED("@ + (x0 + (");"@ + (rest))));
}

pub open spec fn expect_plain_line(x: Expression) -> Program {
    Program::Then(
        Layout::Alone,
        Statement::Expect(false, x),
        Box::new(Program::End),
    )
}

pub proof fn lemma_expect_plain_line(x: Expression)
    requires
        x.grouped(),
    ensures
        expect_plain_line(x).text() == text::fill("    RETURNED({});"@, seq![x.text()]).push('\n'),
        expect_plain_line(x).grouped(),
{
    reveal_with_fuel(Program::text, 2);
    reveal_with_fuel(Program::grouped, 2);
    lemma_statement_12(x, Seq::<char>::empty());
    lemma_text_9(x.text(), "\n"@ + Seq::<char>::empty());
    lemma_letters_7(Seq::<char>::empty());
    reveal_strlit("\n");
    assert(text::fill("    RETURNED({});"@, seq![x.text()]).push('\n') =~= text::fill("    RETURNED({});"@, seq![x.text()]) + ("\n"@ + Seq::<char>::empty()));
    assert(expect_plain_line(x).text() == text::fill("    RETURNED({});"@, seq![x.text()]).push('\n'));
}

proof fn lemma_text_10(x0: Seq<char>, rest: Seq<char>)
    ensures
        text::fill("    RETURNED_T({});"@, seq![x0]) + rest == "    RETURNED_T("@ + (x0 + (");"@ + (rest))),
{
    reveal_strlit("    RETURNED_T({});");
    reveal_strlit("{}");
    reveal_strlit("    RETURNED_T(");
    reveal_strlit(");");
    assert("    RETURNED_T({});"@ =~= "    RETURNED_T("@ + "{}"@ + (");"@));
    let args_0 = seq![x0];
    let args_1 = Seq::<Seq<char>>::empty();
    assert(args_0.skip(1) =~= args_1);
    lemma_hole("    RETURNED_T("@, ");"@, args_0);
    lemma_plain(");"@);
    assert(text::fill("    RETURNED_T({});"@, seq![x0]) + rest =~= "    RETURNED_T("@ + (x0 + (");"@ + (rest))));
}

pub open spec fn expect_thumb_plain_line(x: Expression) -> Program {
    Program::Then(
        Layout::Alone,
        Statement::Expect(true, x),
        Box::new(Program::End),
    )
}

pub proof fn lemma_expect_thumb_plain_line(x: Expression)
    requires
        x.grouped(),
    ensures
        expect_thumb_plain_line(x).text() == text::fill("    RETURNED_T({});"@, seq![x.text()]).push('\n'),
        expect_thumb_plain_line(x).grouped(),
{
    reveal_with_fuel(Program::text, 2);
    reveal_with_fuel(Program::grouped, 2);
    lemma_statement_13(x, Seq::<char>::empty());
    lemma_text_10(x.text(), "\n"@ + Seq::<char>::empty());
    lemma_letters_7(Seq::<char>::empty());
    reveal_strlit("\n");
    assert(text::fill("    RETURNED_T({});"@, seq![x.text()]).push('\n') =~= text::fill("    RETURNED_T({});"@, seq![x.text()]) + ("\n"@ + Seq::<char>::empty()));
    assert(expect_thumb_plain_line(x).text() == text::fill("    RETURNED_T({});"@, seq![x.text()]).push('\n'));
}

proof fn lemma_statement_14(x: Expression, number: nat, rest: Seq<char>)
    requires
        x.grouped(),
    ensures
        Layout::Alone.around(Statement::Svc(x, Expression::Hex { number: number, width: 0, unsigned: true }).text()) + rest == "    SVC("@ + (x.text() + (", 0x"@ + (text::hex(number) + ("u);\n"@ + (rest))))),
        Statement::Svc(x, Expression::Hex { number: number, width: 0, unsigned: true }).grouped(),
{
    reveal_strlit("\n");
    reveal_strlit("    ");
    reveal_strlit("    SVC(");
    reveal_strlit(");");
    reveal_strlit(", ");
    reveal_strlit(", 0x");
    reveal_strlit("0x");
    reveal_strlit("SVC(");
    reveal_strlit("u");
    reveal_strlit("u);\n");
    small_c::lemma_numbers();
    assert(text::hex_wide(number, 0) =~= text::hex(number));
    reveal(Statement::text);
    reveal(Statement::grouped);
    reveal_with_fuel(Expression::text, 2);
    reveal_with_fuel(Expression::grouped, 2);
    assert(Layout::Alone.around(Statement::Svc(x, Expression::Hex { number: number, width: 0, unsigned: true }).text()) + rest =~= "    SVC("@ + (x.text() + (", 0x"@ + (text::hex(number) + ("u);\n"@ + (rest))))));
}

proof fn lemma_text_11(x0: Seq<char>, x1: Seq<char>, rest: Seq<char>)
    ensures
        text::fill("    SVC({}, 0x{}u);"@, seq![x0, x1]) + rest == "    SVC("@ + (x0 + (", 0x"@ + (x1 + ("u);"@ + (rest))))),
{
    reveal_strlit("    SVC({}, 0x{}u);");
    reveal_strlit("{}");
    reveal_strlit("    SVC(");
    reveal_strlit(", 0x");
    reveal_strlit("u);");
    assert("    SVC({}, 0x{}u);"@ =~= "    SVC("@ + "{}"@ + (", 0x"@ + "{}"@ + ("u);"@)));
    let args_0 = seq![x0, x1];
    let args_1 = seq![x1];
    let args_2 = Seq::<Seq<char>>::empty();
    assert(args_0.skip(1) =~= args_1);
    assert(args_1.skip(1) =~= args_2);
    lemma_hole("    SVC("@, ", 0x"@ + "{}"@ + ("u);"@), args_0);
    lemma_hole(", 0x"@, "u);"@, args_1);
    lemma_plain("u);"@);
    assert(text::fill("    SVC({}, 0x{}u);"@, seq![x0, x1]) + rest =~= "    SVC("@ + (x0 + (", 0x"@ + (x1 + ("u);"@ + (rest))))));
}

proof fn lemma_letters_11(rest: Seq<char>)
    ensures
        "u);\n"@ + (rest) == "u);"@ + ("\n"@ + (rest)),
{
    reveal_strlit("u);\n");
    reveal_strlit("u);");
    reveal_strlit("\n");
    assert("u);\n"@ + (rest) =~= "u);"@ + ("\n"@ + (rest)));
}

pub open spec fn svc_line(x: Expression, number: nat) -> Program {
    Program::Then(
        Layout::Alone,
        Statement::Svc(x, Expression::Hex { number: number, width: 0, unsigned: true }),
        Box::new(Program::End),
    )
}

pub proof fn lemma_svc_line(x: Expression, number: nat)
    requires
        x.grouped(),
    ensures
        svc_line(x, number).text() == text::fill("    SVC({}, 0x{}u);"@, seq![x.text(), text::hex(number)]).push('\n'),
        svc_line(x, number).grouped(),
{
    reveal_with_fuel(Program::text, 2);
    reveal_with_fuel(Program::grouped, 2);
    lemma_statement_14(x, number, Seq::<char>::empty());
    lemma_text_11(x.text(), text::hex(number), "\n"@ + Seq::<char>::empty());
    lemma_letters_11(Seq::<char>::empty());
    reveal_strlit("\n");
    assert(text::fill("    SVC({}, 0x{}u);"@, seq![x.text(), text::hex(number)]).push('\n') =~= text::fill("    SVC({}, 0x{}u);"@, seq![x.text(), text::hex(number)]) + ("\n"@ + Seq::<char>::empty()));
    assert(svc_line(x, number).text() == text::fill("    SVC({}, 0x{}u);"@, seq![x.text(), text::hex(number)]).push('\n'));
}

proof fn lemma_statement_15(x: Expression, op: nat, rest: Seq<char>)
    requires
        x.grouped(),
    ensures
        Layout::Alone.around(Statement::Interpret(x, Expression::Hex { number: op, width: 8, unsigned: true }).text()) + rest == "    INTERPRET("@ + (x.text() + (", 0x"@ + (text::hex_wide(op, 8) + ("u);\n"@ + (rest))))),
        Statement::Interpret(x, Expression::Hex { number: op, width: 8, unsigned: true }).grouped(),
{
    reveal_strlit("\n");
    reveal_strlit("    ");
    reveal_strlit("    INTERPRET(");
    reveal_strlit(");");
    reveal_strlit(", ");
    reveal_strlit(", 0x");
    reveal_strlit("0x");
    reveal_strlit("INTERPRET(");
    reveal_strlit("u");
    reveal_strlit("u);\n");
    small_c::lemma_numbers();
    reveal(Statement::text);
    reveal(Statement::grouped);
    reveal_with_fuel(Expression::text, 2);
    reveal_with_fuel(Expression::grouped, 2);
    assert(Layout::Alone.around(Statement::Interpret(x, Expression::Hex { number: op, width: 8, unsigned: true }).text()) + rest =~= "    INTERPRET("@ + (x.text() + (", 0x"@ + (text::hex_wide(op, 8) + ("u);\n"@ + (rest))))));
}

proof fn lemma_text_12(x0: Seq<char>, x1: Seq<char>, rest: Seq<char>)
    ensures
        text::fill("    INTERPRET({}, 0x{}u);"@, seq![x0, x1]) + rest == "    INTERPRET("@ + (x0 + (", 0x"@ + (x1 + ("u);"@ + (rest))))),
{
    reveal_strlit("    INTERPRET({}, 0x{}u);");
    reveal_strlit("{}");
    reveal_strlit("    INTERPRET(");
    reveal_strlit(", 0x");
    reveal_strlit("u);");
    assert("    INTERPRET({}, 0x{}u);"@ =~= "    INTERPRET("@ + "{}"@ + (", 0x"@ + "{}"@ + ("u);"@)));
    let args_0 = seq![x0, x1];
    let args_1 = seq![x1];
    let args_2 = Seq::<Seq<char>>::empty();
    assert(args_0.skip(1) =~= args_1);
    assert(args_1.skip(1) =~= args_2);
    lemma_hole("    INTERPRET("@, ", 0x"@ + "{}"@ + ("u);"@), args_0);
    lemma_hole(", 0x"@, "u);"@, args_1);
    lemma_plain("u);"@);
    assert(text::fill("    INTERPRET({}, 0x{}u);"@, seq![x0, x1]) + rest =~= "    INTERPRET("@ + (x0 + (", 0x"@ + (x1 + ("u);"@ + (rest))))));
}

pub open spec fn interpret_line(x: Expression, op: nat) -> Program {
    Program::Then(
        Layout::Alone,
        Statement::Interpret(x, Expression::Hex { number: op, width: 8, unsigned: true }),
        Box::new(Program::End),
    )
}

pub proof fn lemma_interpret_line(x: Expression, op: nat)
    requires
        x.grouped(),
    ensures
        interpret_line(x, op).text() == text::fill("    INTERPRET({}, 0x{}u);"@, seq![x.text(), text::hex_wide(op, 8)]).push('\n'),
        interpret_line(x, op).grouped(),
{
    reveal_with_fuel(Program::text, 2);
    reveal_with_fuel(Program::grouped, 2);
    lemma_statement_15(x, op, Seq::<char>::empty());
    lemma_text_12(x.text(), text::hex_wide(op, 8), "\n"@ + Seq::<char>::empty());
    lemma_letters_11(Seq::<char>::empty());
    reveal_strlit("\n");
    assert(text::fill("    INTERPRET({}, 0x{}u);"@, seq![x.text(), text::hex_wide(op, 8)]).push('\n') =~= text::fill("    INTERPRET({}, 0x{}u);"@, seq![x.text(), text::hex_wide(op, 8)]) + ("\n"@ + Seq::<char>::empty()));
    assert(interpret_line(x, op).text() == text::fill("    INTERPRET({}, 0x{}u);"@, seq![x.text(), text::hex_wide(op, 8)]).push('\n'));
}

proof fn lemma_statement_16(x: Expression, op: nat, rest: Seq<char>)
    requires
        x.grouped(),
    ensures
        Layout::Alone.around(Statement::Interpret(x, Expression::Hex { number: op, width: 4, unsigned: true }).text()) + rest == "    INTERPRET("@ + (x.text() + (", 0x"@ + (text::hex_wide(op, 4) + ("u);\n"@ + (rest))))),
        Statement::Interpret(x, Expression::Hex { number: op, width: 4, unsigned: true }).grouped(),
{
    reveal_strlit("\n");
    reveal_strlit("    ");
    reveal_strlit("    INTERPRET(");
    reveal_strlit(");");
    reveal_strlit(", ");
    reveal_strlit(", 0x");
    reveal_strlit("0x");
    reveal_strlit("INTERPRET(");
    reveal_strlit("u");
    reveal_strlit("u);\n");
    small_c::lemma_numbers();
    reveal(Statement::text);
    reveal(Statement::grouped);
    reveal_with_fuel(Expression::text, 2);
    reveal_with_fuel(Expression::grouped, 2);
    assert(Layout::Alone.around(Statement::Interpret(x, Expression::Hex { number: op, width: 4, unsigned: true }).text()) + rest =~= "    INTERPRET("@ + (x.text() + (", 0x"@ + (text::hex_wide(op, 4) + ("u);\n"@ + (rest))))));
}

pub open spec fn interpret_half_line(x: Expression, op: nat) -> Program {
    Program::Then(
        Layout::Alone,
        Statement::Interpret(x, Expression::Hex { number: op, width: 4, unsigned: true }),
        Box::new(Program::End),
    )
}

pub proof fn lemma_interpret_half_line(x: Expression, op: nat)
    requires
        x.grouped(),
    ensures
        interpret_half_line(x, op).text() == text::fill("    INTERPRET({}, 0x{}u);"@, seq![x.text(), text::hex_wide(op, 4)]).push('\n'),
        interpret_half_line(x, op).grouped(),
{
    reveal_with_fuel(Program::text, 2);
    reveal_with_fuel(Program::grouped, 2);
    lemma_statement_16(x, op, Seq::<char>::empty());
    lemma_text_12(x.text(), text::hex_wide(op, 4), "\n"@ + Seq::<char>::empty());
    lemma_letters_11(Seq::<char>::empty());
    reveal_strlit("\n");
    assert(text::fill("    INTERPRET({}, 0x{}u);"@, seq![x.text(), text::hex_wide(op, 4)]).push('\n') =~= text::fill("    INTERPRET({}, 0x{}u);"@, seq![x.text(), text::hex_wide(op, 4)]) + ("\n"@ + Seq::<char>::empty()));
    assert(interpret_half_line(x, op).text() == text::fill("    INTERPRET({}, 0x{}u);"@, seq![x.text(), text::hex_wide(op, 4)]).push('\n'));
}

proof fn lemma_statement_17(rest: Seq<char>)
    ensures
        Layout::Last.around(Statement::Close.text()) + rest == "}\n"@ + (rest),
        Statement::Close.grouped(),
{
    reveal_strlit("\n");
    reveal_strlit("}");
    reveal_strlit("}\n");
    small_c::lemma_numbers();
    reveal(Statement::text);
    reveal(Statement::grouped);
    reveal_with_fuel(Expression::text, 2);
    reveal_with_fuel(Expression::grouped, 2);
    assert(Layout::Last.around(Statement::Close.text()) + rest =~= "}\n"@ + (rest));
}

#[verifier::rlimit(60)]
proof fn lemma_statement_18(rest: Seq<char>)
    ensures
        Layout::Middle.around(Statement::Assign(Place::Register(15), Expression::Two(Operator::And, Box::new(Expression::Local(Name::V)), Box::new(Expression::Group(Box::new(Expression::Either(Box::new(Expression::Field(Field::Thumb)), Box::new(Expression::Flip(Box::new(Expression::Unsigned(1)))), Box::new(Expression::Flip(Box::new(Expression::Unsigned(3)))))))))).text()) + rest == "ctx->r[15] = v & (ctx->thumb ? ~1u : ~3u); "@ + (rest),
        Statement::Assign(Place::Register(15), Expression::Two(Operator::And, Box::new(Expression::Local(Name::V)), Box::new(Expression::Group(Box::new(Expression::Either(Box::new(Expression::Field(Field::Thumb)), Box::new(Expression::Flip(Box::new(Expression::Unsigned(1)))), Box::new(Expression::Flip(Box::new(Expression::Unsigned(3)))))))))).grouped(),
{
    reveal_strlit(" ");
    reveal_strlit(" & ");
    reveal_strlit(" : ");
    reveal_strlit(" = ");
    reveal_strlit(" ? ");
    reveal_strlit("(");
    reveal_strlit(")");
    reveal_strlit("1");
    reveal_strlit("15");
    reveal_strlit("3");
    reveal_strlit(";");
    reveal_strlit("]");
    reveal_strlit("ctx->r[");
    reveal_strlit("ctx->r[15] = v & (ctx->thumb ? ~1u : ~3u); ");
    reveal_strlit("ctx->thumb");
    reveal_strlit("u");
    reveal_strlit("v");
    reveal_strlit("~");
    small_c::lemma_numbers();
    reveal(Statement::text);
    reveal(Statement::grouped);
    reveal_with_fuel(Expression::text, 6);
    reveal_with_fuel(Expression::grouped, 6);
    assert(Layout::Middle.around(Statement::Assign(Place::Register(15), Expression::Two(Operator::And, Box::new(Expression::Local(Name::V)), Box::new(Expression::Group(Box::new(Expression::Either(Box::new(Expression::Field(Field::Thumb)), Box::new(Expression::Flip(Box::new(Expression::Unsigned(1)))), Box::new(Expression::Flip(Box::new(Expression::Unsigned(3)))))))))).text()) + rest =~= "ctx->r[15] = v & (ctx->thumb ? ~1u : ~3u); "@ + (rest));
}

proof fn lemma_statement_19(rest: Seq<char>)
    ensures
        Layout::Middle.around(Statement::Assign(Place::Field(Field::Thumb), Expression::Two(Operator::And, Box::new(Expression::Local(Name::V)), Box::new(Expression::Int(1)))).text()) + rest == "ctx->thumb = v & 1; "@ + (rest),
        Statement::Assign(Place::Field(Field::Thumb), Expression::Two(Operator::And, Box::new(Expression::Local(Name::V)), Box::new(Expression::Int(1)))).grouped(),
{
    reveal_strlit(" ");
    reveal_strlit(" & ");
    reveal_strlit(" = ");
    reveal_strlit("1");
    reveal_strlit(";");
    reveal_strlit("ctx->thumb");
    reveal_strlit("ctx->thumb = v & 1; ");
    reveal_strlit("v");
    small_c::lemma_numbers();
    reveal(Statement::text);
    reveal(Statement::grouped);
    reveal_with_fuel(Expression::text, 3);
    reveal_with_fuel(Expression::grouped, 3);
    assert(Layout::Middle.around(Statement::Assign(Place::Field(Field::Thumb), Expression::Two(Operator::And, Box::new(Expression::Local(Name::V)), Box::new(Expression::Int(1)))).text()) + rest =~= "ctx->thumb = v & 1; "@ + (rest));
}

proof fn lemma_statement_20(y: Expression, rest: Seq<char>)
    requires
        y.grouped(),
    ensures
        Layout::Middle.around(Statement::Assign(Place::Register(14), y).text()) + rest == "ctx->r[14] = "@ + (y.text() + ("; "@ + (rest))),
        Statement::Assign(Place::Register(14), y).grouped(),
{
    reveal_strlit(" ");
    reveal_strlit(" = ");
    reveal_strlit("14");
    reveal_strlit(";");
    reveal_strlit("; ");
    reveal_strlit("]");
    reveal_strlit("ctx->r[");
    reveal_strlit("ctx->r[14] = ");
    small_c::lemma_numbers();
    reveal(Statement::text);
    reveal(Statement::grouped);
    assert(Layout::Middle.around(Statement::Assign(Place::Register(14), y).text()) + rest =~= "ctx->r[14] = "@ + (y.text() + ("; "@ + (rest))));
}

proof fn lemma_statement_21(x: Expression, rest: Seq<char>)
    requires
        x.grouped(),
    ensures
        Layout::Middle.around(Statement::Declare(Type::U32, Declared::One(Name::V, x)).text()) + rest == "uint32_t v = "@ + (x.text() + ("; "@ + (rest))),
        Statement::Declare(Type::U32, Declared::One(Name::V, x)).grouped(),
{
    reveal_strlit(" ");
    reveal_strlit(" = ");
    reveal_strlit(";");
    reveal_strlit("; ");
    reveal_strlit("uint32_t");
    reveal_strlit("uint32_t v = ");
    reveal_strlit("v");
    small_c::lemma_numbers();
    reveal(Statement::text);
    reveal(Statement::grouped);
    reveal_with_fuel(Declared::text, 2);
    reveal_with_fuel(Declared::grouped, 2);
    reveal_with_fuel(Expression::text, 2);
    reveal_with_fuel(Expression::grouped, 2);
    assert(Layout::Middle.around(Statement::Declare(Type::U32, Declared::One(Name::V, x)).text()) + rest =~= "uint32_t v = "@ + (x.text() + ("; "@ + (rest))));
}

proof fn lemma_statement_22(rest: Seq<char>)
    ensures
        Layout::First.around(Statement::Open.text()) + rest == "    { "@ + (rest),
        Statement::Open.grouped(),
{
    reveal_strlit(" ");
    reveal_strlit("    ");
    reveal_strlit("    { ");
    reveal_strlit("{");
    small_c::lemma_numbers();
    reveal(Statement::text);
    reveal(Statement::grouped);
    reveal_with_fuel(Expression::text, 2);
    reveal_with_fuel(Expression::grouped, 2);
    assert(Layout::First.around(Statement::Open.text()) + rest =~= "    { "@ + (rest));
}

proof fn lemma_text_13(x0: Seq<char>, x1: Seq<char>, rest: Seq<char>)
    ensures
        text::fill("    { uint32_t v = {}; ctx->r[14] = {}; ctx->thumb = v & 1; ctx->r[15] = v & (ctx->thumb ? ~1u : ~3u); }"@, seq![x0, x1]) + rest == "    { uint32_t v = "@ + (x0 + ("; ctx->r[14] = "@ + (x1 + ("; ctx->thumb = v & 1; ctx->r[15] = v & (ctx->thumb ? ~1u : ~3u); }"@ + (rest))))),
{
    reveal_strlit("    { uint32_t v = {}; ctx->r[14] = {}; ctx->thumb = v & 1; ctx->r[15] = v & (ctx->thumb ? ~1u : ~3u); }");
    reveal_strlit("{}");
    reveal_strlit("    { uint32_t v = ");
    reveal_strlit("; ctx->r[14] = ");
    reveal_strlit("; ctx->thumb = v & 1; ctx->r[15] = v & (ctx->thumb ? ~1u : ~3u); }");
    assert("    { uint32_t v = {}; ctx->r[14] = {}; ctx->thumb = v & 1; ctx->r[15] = v & (ctx->thumb ? ~1u : ~3u); }"@ =~= "    { uint32_t v = "@ + "{}"@ + ("; ctx->r[14] = "@ + "{}"@ + ("; ctx->thumb = v & 1; ctx->r[15] = v & (ctx->thumb ? ~1u : ~3u); }"@)));
    let args_0 = seq![x0, x1];
    let args_1 = seq![x1];
    let args_2 = Seq::<Seq<char>>::empty();
    assert(args_0.skip(1) =~= args_1);
    assert(args_1.skip(1) =~= args_2);
    lemma_hole("    { uint32_t v = "@, "; ctx->r[14] = "@ + "{}"@ + ("; ctx->thumb = v & 1; ctx->r[15] = v & (ctx->thumb ? ~1u : ~3u); }"@), args_0);
    lemma_hole("; ctx->r[14] = "@, "; ctx->thumb = v & 1; ctx->r[15] = v & (ctx->thumb ? ~1u : ~3u); }"@, args_1);
    lemma_plain("; ctx->thumb = v & 1; ctx->r[15] = v & (ctx->thumb ? ~1u : ~3u); }"@);
    assert(text::fill("    { uint32_t v = {}; ctx->r[14] = {}; ctx->thumb = v & 1; ctx->r[15] = v & (ctx->thumb ? ~1u : ~3u); }"@, seq![x0, x1]) + rest =~= "    { uint32_t v = "@ + (x0 + ("; ctx->r[14] = "@ + (x1 + ("; ctx->thumb = v & 1; ctx->r[15] = v & (ctx->thumb ? ~1u : ~3u); }"@ + (rest))))));
}

proof fn lemma_letters_12(rest: Seq<char>)
    ensures
        "; "@ + ("ctx->thumb = v & 1; "@ + ("ctx->r[15] = v & (ctx->thumb ? ~1u : ~3u); "@ + ("}\n"@ + (rest)))) == "; ctx->thumb = v & 1; ctx->r[15] = v & (ctx->thumb ? ~1u : ~3u); }"@ + ("\n"@ + (rest)),
{
    reveal_strlit("; ");
    reveal_strlit("ctx->thumb = v & 1; ");
    reveal_strlit("ctx->r[15] = v & (ctx->thumb ? ~1u : ~3u); ");
    reveal_strlit("}\n");
    reveal_strlit("; ctx->thumb = v & 1; ctx->r[15] = v & (ctx->thumb ? ~1u : ~3u); }");
    reveal_strlit("\n");
    assert("; "@ + ("ctx->thumb = v & 1; "@ + ("ctx->r[15] = v & (ctx->thumb ? ~1u : ~3u); "@ + ("}\n"@ + (rest)))) =~= "; ctx->thumb = v & 1; ctx->r[15] = v & (ctx->thumb ? ~1u : ~3u); }"@ + ("\n"@ + (rest)));
}

proof fn lemma_letters_13(rest: Seq<char>)
    ensures
        "; "@ + ("ctx->r[14] = "@ + (rest)) == "; ctx->r[14] = "@ + (rest),
{
    reveal_strlit("; ");
    reveal_strlit("ctx->r[14] = ");
    reveal_strlit("; ctx->r[14] = ");
    assert("; "@ + ("ctx->r[14] = "@ + (rest)) =~= "; ctx->r[14] = "@ + (rest));
}

proof fn lemma_letters_14(rest: Seq<char>)
    ensures
        "    { "@ + ("uint32_t v = "@ + (rest)) == "    { uint32_t v = "@ + (rest),
{
    reveal_strlit("    { ");
    reveal_strlit("uint32_t v = ");
    reveal_strlit("    { uint32_t v = ");
    assert("    { "@ + ("uint32_t v = "@ + (rest)) =~= "    { uint32_t v = "@ + (rest));
}

pub open spec fn exchange_line(x: Expression, y: Expression) -> Program {
    Program::Then(
        Layout::First,
        Statement::Open,
        Box::new(Program::Then(
        Layout::Middle,
        Statement::Declare(Type::U32, Declared::One(Name::V, x)),
        Box::new(Program::Then(
        Layout::Middle,
        Statement::Assign(Place::Register(14), y),
        Box::new(Program::Then(
        Layout::Middle,
        Statement::Assign(Place::Field(Field::Thumb), Expression::Two(Operator::And, Box::new(Expression::Local(Name::V)), Box::new(Expression::Int(1)))),
        Box::new(Program::Then(
        Layout::Middle,
        Statement::Assign(Place::Register(15), Expression::Two(Operator::And, Box::new(Expression::Local(Name::V)), Box::new(Expression::Group(Box::new(Expression::Either(Box::new(Expression::Field(Field::Thumb)), Box::new(Expression::Flip(Box::new(Expression::Unsigned(1)))), Box::new(Expression::Flip(Box::new(Expression::Unsigned(3)))))))))),
        Box::new(Program::Then(
        Layout::Last,
        Statement::Close,
        Box::new(Program::End),
    )),
    )),
    )),
    )),
    )),
    )
}

pub proof fn lemma_exchange_line(x: Expression, y: Expression)
    requires
        x.grouped(),
        y.grouped(),
    ensures
        exchange_line(x, y).text() == text::fill("    { uint32_t v = {}; ctx->r[14] = {}; ctx->thumb = v & 1; ctx->r[15] = v & (ctx->thumb ? ~1u : ~3u); }"@, seq![x.text(), y.text()]).push('\n'),
        exchange_line(x, y).grouped(),
{
    reveal_with_fuel(Program::text, 7);
    reveal_with_fuel(Program::grouped, 7);
    lemma_statement_17(Seq::<char>::empty());
    lemma_statement_18("}\n"@ + (Seq::<char>::empty()));
    lemma_statement_19("ctx->r[15] = v & (ctx->thumb ? ~1u : ~3u); "@ + ("}\n"@ + (Seq::<char>::empty())));
    lemma_statement_20(y, "ctx->thumb = v & 1; "@ + ("ctx->r[15] = v & (ctx->thumb ? ~1u : ~3u); "@ + ("}\n"@ + (Seq::<char>::empty()))));
    lemma_statement_21(x, "ctx->r[14] = "@ + (y.text() + ("; "@ + ("ctx->thumb = v & 1; "@ + ("ctx->r[15] = v & (ctx->thumb ? ~1u : ~3u); "@ + ("}\n"@ + (Seq::<char>::empty())))))));
    lemma_statement_22("uint32_t v = "@ + (x.text() + ("; "@ + ("ctx->r[14] = "@ + (y.text() + ("; "@ + ("ctx->thumb = v & 1; "@ + ("ctx->r[15] = v & (ctx->thumb ? ~1u : ~3u); "@ + ("}\n"@ + (Seq::<char>::empty()))))))))));
    lemma_text_13(x.text(), y.text(), "\n"@ + Seq::<char>::empty());
    lemma_letters_12(Seq::<char>::empty());
    lemma_letters_13(y.text() + ("; ctx->thumb = v & 1; ctx->r[15] = v & (ctx->thumb ? ~1u : ~3u); }"@ + ("\n"@ + (Seq::<char>::empty()))));
    lemma_letters_14(x.text() + ("; ctx->r[14] = "@ + (y.text() + ("; ctx->thumb = v & 1; ctx->r[15] = v & (ctx->thumb ? ~1u : ~3u); }"@ + ("\n"@ + (Seq::<char>::empty()))))));
    reveal_strlit("\n");
    assert(text::fill("    { uint32_t v = {}; ctx->r[14] = {}; ctx->thumb = v & 1; ctx->r[15] = v & (ctx->thumb ? ~1u : ~3u); }"@, seq![x.text(), y.text()]).push('\n') =~= text::fill("    { uint32_t v = {}; ctx->r[14] = {}; ctx->thumb = v & 1; ctx->r[15] = v & (ctx->thumb ? ~1u : ~3u); }"@, seq![x.text(), y.text()]) + ("\n"@ + Seq::<char>::empty()));
    assert(exchange_line(x, y).text() == text::fill("    { uint32_t v = {}; ctx->r[14] = {}; ctx->thumb = v & 1; ctx->r[15] = v & (ctx->thumb ? ~1u : ~3u); }"@, seq![x.text(), y.text()]).push('\n'));
}

proof fn lemma_statement_23(y: Expression, rest: Seq<char>)
    requires
        y.grouped(),
        y.strength() == 16,
    ensures
        Layout::Middle.around(Statement::Assign(Place::Register(14), Expression::Two(Operator::Or, Box::new(y), Box::new(Expression::Int(1)))).text()) + rest == "ctx->r[14] = "@ + (y.text() + (" | 1; "@ + (rest))),
        Statement::Assign(Place::Register(14), Expression::Two(Operator::Or, Box::new(y), Box::new(Expression::Int(1)))).grouped(),
{
    reveal_strlit(" ");
    reveal_strlit(" = ");
    reveal_strlit(" | ");
    reveal_strlit(" | 1; ");
    reveal_strlit("1");
    reveal_strlit("14");
    reveal_strlit(";");
    reveal_strlit("]");
    reveal_strlit("ctx->r[");
    reveal_strlit("ctx->r[14] = ");
    small_c::lemma_numbers();
    reveal(Statement::text);
    reveal(Statement::grouped);
    reveal_with_fuel(Expression::text, 3);
    reveal_with_fuel(Expression::grouped, 3);
    assert(Layout::Middle.around(Statement::Assign(Place::Register(14), Expression::Two(Operator::Or, Box::new(y), Box::new(Expression::Int(1)))).text()) + rest =~= "ctx->r[14] = "@ + (y.text() + (" | 1; "@ + (rest))));
}

proof fn lemma_text_14(x0: Seq<char>, x1: Seq<char>, rest: Seq<char>)
    ensures
        text::fill("    { uint32_t v = {}; ctx->r[14] = {} | 1; ctx->thumb = v & 1; ctx->r[15] = v & (ctx->thumb ? ~1u : ~3u); }"@, seq![x0, x1]) + rest == "    { uint32_t v = "@ + (x0 + ("; ctx->r[14] = "@ + (x1 + (" | 1; ctx->thumb = v & 1; ctx->r[15] = v & (ctx->thumb ? ~1u : ~3u); }"@ + (rest))))),
{
    reveal_strlit("    { uint32_t v = {}; ctx->r[14] = {} | 1; ctx->thumb = v & 1; ctx->r[15] = v & (ctx->thumb ? ~1u : ~3u); }");
    reveal_strlit("{}");
    reveal_strlit("    { uint32_t v = ");
    reveal_strlit("; ctx->r[14] = ");
    reveal_strlit(" | 1; ctx->thumb = v & 1; ctx->r[15] = v & (ctx->thumb ? ~1u : ~3u); }");
    assert("    { uint32_t v = {}; ctx->r[14] = {} | 1; ctx->thumb = v & 1; ctx->r[15] = v & (ctx->thumb ? ~1u : ~3u); }"@ =~= "    { uint32_t v = "@ + "{}"@ + ("; ctx->r[14] = "@ + "{}"@ + (" | 1; ctx->thumb = v & 1; ctx->r[15] = v & (ctx->thumb ? ~1u : ~3u); }"@)));
    let args_0 = seq![x0, x1];
    let args_1 = seq![x1];
    let args_2 = Seq::<Seq<char>>::empty();
    assert(args_0.skip(1) =~= args_1);
    assert(args_1.skip(1) =~= args_2);
    lemma_hole("    { uint32_t v = "@, "; ctx->r[14] = "@ + "{}"@ + (" | 1; ctx->thumb = v & 1; ctx->r[15] = v & (ctx->thumb ? ~1u : ~3u); }"@), args_0);
    lemma_hole("; ctx->r[14] = "@, " | 1; ctx->thumb = v & 1; ctx->r[15] = v & (ctx->thumb ? ~1u : ~3u); }"@, args_1);
    lemma_plain(" | 1; ctx->thumb = v & 1; ctx->r[15] = v & (ctx->thumb ? ~1u : ~3u); }"@);
    assert(text::fill("    { uint32_t v = {}; ctx->r[14] = {} | 1; ctx->thumb = v & 1; ctx->r[15] = v & (ctx->thumb ? ~1u : ~3u); }"@, seq![x0, x1]) + rest =~= "    { uint32_t v = "@ + (x0 + ("; ctx->r[14] = "@ + (x1 + (" | 1; ctx->thumb = v & 1; ctx->r[15] = v & (ctx->thumb ? ~1u : ~3u); }"@ + (rest))))));
}

proof fn lemma_letters_15(rest: Seq<char>)
    ensures
        " | 1; "@ + ("ctx->thumb = v & 1; "@ + ("ctx->r[15] = v & (ctx->thumb ? ~1u : ~3u); "@ + ("}\n"@ + (rest)))) == " | 1; ctx->thumb = v & 1; ctx->r[15] = v & (ctx->thumb ? ~1u : ~3u); }"@ + ("\n"@ + (rest)),
{
    reveal_strlit(" | 1; ");
    reveal_strlit("ctx->thumb = v & 1; ");
    reveal_strlit("ctx->r[15] = v & (ctx->thumb ? ~1u : ~3u); ");
    reveal_strlit("}\n");
    reveal_strlit(" | 1; ctx->thumb = v & 1; ctx->r[15] = v & (ctx->thumb ? ~1u : ~3u); }");
    reveal_strlit("\n");
    assert(" | 1; "@ + ("ctx->thumb = v & 1; "@ + ("ctx->r[15] = v & (ctx->thumb ? ~1u : ~3u); "@ + ("}\n"@ + (rest)))) =~= " | 1; ctx->thumb = v & 1; ctx->r[15] = v & (ctx->thumb ? ~1u : ~3u); }"@ + ("\n"@ + (rest)));
}

pub open spec fn exchange_thumb_line(x: Expression, y: Expression) -> Program {
    Program::Then(
        Layout::First,
        Statement::Open,
        Box::new(Program::Then(
        Layout::Middle,
        Statement::Declare(Type::U32, Declared::One(Name::V, x)),
        Box::new(Program::Then(
        Layout::Middle,
        Statement::Assign(Place::Register(14), Expression::Two(Operator::Or, Box::new(y), Box::new(Expression::Int(1)))),
        Box::new(Program::Then(
        Layout::Middle,
        Statement::Assign(Place::Field(Field::Thumb), Expression::Two(Operator::And, Box::new(Expression::Local(Name::V)), Box::new(Expression::Int(1)))),
        Box::new(Program::Then(
        Layout::Middle,
        Statement::Assign(Place::Register(15), Expression::Two(Operator::And, Box::new(Expression::Local(Name::V)), Box::new(Expression::Group(Box::new(Expression::Either(Box::new(Expression::Field(Field::Thumb)), Box::new(Expression::Flip(Box::new(Expression::Unsigned(1)))), Box::new(Expression::Flip(Box::new(Expression::Unsigned(3)))))))))),
        Box::new(Program::Then(
        Layout::Last,
        Statement::Close,
        Box::new(Program::End),
    )),
    )),
    )),
    )),
    )),
    )
}

pub proof fn lemma_exchange_thumb_line(x: Expression, y: Expression)
    requires
        x.grouped(),
        y.grouped(),
        y.strength() == 16,
    ensures
        exchange_thumb_line(x, y).text() == text::fill("    { uint32_t v = {}; ctx->r[14] = {} | 1; ctx->thumb = v & 1; ctx->r[15] = v & (ctx->thumb ? ~1u : ~3u); }"@, seq![x.text(), y.text()]).push('\n'),
        exchange_thumb_line(x, y).grouped(),
{
    reveal_with_fuel(Program::text, 7);
    reveal_with_fuel(Program::grouped, 7);
    lemma_statement_17(Seq::<char>::empty());
    lemma_statement_18("}\n"@ + (Seq::<char>::empty()));
    lemma_statement_19("ctx->r[15] = v & (ctx->thumb ? ~1u : ~3u); "@ + ("}\n"@ + (Seq::<char>::empty())));
    lemma_statement_23(y, "ctx->thumb = v & 1; "@ + ("ctx->r[15] = v & (ctx->thumb ? ~1u : ~3u); "@ + ("}\n"@ + (Seq::<char>::empty()))));
    lemma_statement_21(x, "ctx->r[14] = "@ + (y.text() + (" | 1; "@ + ("ctx->thumb = v & 1; "@ + ("ctx->r[15] = v & (ctx->thumb ? ~1u : ~3u); "@ + ("}\n"@ + (Seq::<char>::empty())))))));
    lemma_statement_22("uint32_t v = "@ + (x.text() + ("; "@ + ("ctx->r[14] = "@ + (y.text() + (" | 1; "@ + ("ctx->thumb = v & 1; "@ + ("ctx->r[15] = v & (ctx->thumb ? ~1u : ~3u); "@ + ("}\n"@ + (Seq::<char>::empty()))))))))));
    lemma_text_14(x.text(), y.text(), "\n"@ + Seq::<char>::empty());
    lemma_letters_15(Seq::<char>::empty());
    lemma_letters_13(y.text() + (" | 1; ctx->thumb = v & 1; ctx->r[15] = v & (ctx->thumb ? ~1u : ~3u); }"@ + ("\n"@ + (Seq::<char>::empty()))));
    lemma_letters_14(x.text() + ("; ctx->r[14] = "@ + (y.text() + (" | 1; ctx->thumb = v & 1; ctx->r[15] = v & (ctx->thumb ? ~1u : ~3u); }"@ + ("\n"@ + (Seq::<char>::empty()))))));
    reveal_strlit("\n");
    assert(text::fill("    { uint32_t v = {}; ctx->r[14] = {} | 1; ctx->thumb = v & 1; ctx->r[15] = v & (ctx->thumb ? ~1u : ~3u); }"@, seq![x.text(), y.text()]).push('\n') =~= text::fill("    { uint32_t v = {}; ctx->r[14] = {} | 1; ctx->thumb = v & 1; ctx->r[15] = v & (ctx->thumb ? ~1u : ~3u); }"@, seq![x.text(), y.text()]) + ("\n"@ + Seq::<char>::empty()));
    assert(exchange_thumb_line(x, y).text() == text::fill("    { uint32_t v = {}; ctx->r[14] = {} | 1; ctx->thumb = v & 1; ctx->r[15] = v & (ctx->thumb ? ~1u : ~3u); }"@, seq![x.text(), y.text()]).push('\n'));
}

} // verus!
