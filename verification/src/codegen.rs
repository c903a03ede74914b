//! turning the functions discovery found into C.
//!
//! every function becomes a C function that can be entered at any of its
//! labels. guest calls are C calls, and anything the code cannot follow on
//! its own, an svc, an unknown target, a full budget, returns all the way
//! out to the host, which picks up again from r15.

use crate::discover::{Analysis, Function, Mode, Program};
use crate::image::Segment;
use crate::sorted;
use crate::text;
use crate::text::{decimal, decimal64, emit0, emit1, emit2, emit3, emit5, form1, form2, number_text, word};
use std::collections::{BTreeMap, BTreeSet};
use vstd::prelude::*;

pub mod architecture;
pub mod arm;
pub mod arm_meaning;
pub mod arm_multiplies;
pub mod arm_transfers;
pub mod branch_lines;
pub mod branches;
pub mod conditional;
pub mod conditions;
pub mod laws;
pub mod lines;
pub mod multiply_lines;
pub mod operands;
pub mod running;
pub mod small_c;
pub mod thumb;
pub mod thumb_branches;
pub mod thumb_lines;
pub mod thumb_meaning;
pub mod thumb_moves;
pub mod thumb_transfers;
pub mod transfer_lines;
pub mod vfp;

verus! {

broadcast use {vstd::laws_cmp::group_laws_cmp, vstd::std_specs::btree::group_btree_axioms};

/// what the lowering of one instruction may refer to.
pub struct Scope<'a> {
    /// the labels of the function being written.
    pub labels: &'a BTreeSet<u32>,
    /// the functions written as C, by entry, bit 0 set for Thumb.
    pub functions: &'a BTreeSet<u32>,
    /// the number of the module being written, none for the executable.
    pub module: Option<u32>,
}

/// the names the lowering of one instruction may refer to.
#[verifier::ext_equal]
pub struct Names {
    pub labels: Set<u32>,
    pub functions: Set<u32>,
    pub module: Option<u32>,
}

impl<'a> View for Scope<'a> {
    type V = Names;

    open spec fn view(&self) -> Names {
        Names { labels: self.labels@, functions: self.functions@, module: self.module }
    }
}

/// the C written up to here, and whether execution can carry on past it.
#[verifier::ext_equal]
pub struct Code {
    pub text: Seq<char>,
    pub on: bool,
}

/// an address as C. the code of a module does not know where it is loaded,
/// so it adds that up.
pub open spec fn address_text(module: Option<u32>, address: u32) -> Seq<char> {
    match module {
        None => text::fill("0x{}u"@, seq![text::hex_wide(address as nat, 8)]),
        Some(_) => text::fill("(module + 0x{}u)"@, seq![text::hex_wide(address as nat, 8)]),
    }
}

/// a register as C.
pub open spec fn register_text(register: u32) -> Seq<char> {
    text::fill("ctx->r[{}]"@, seq![text::dec(register as nat)])
}

/// the C name of the function at entry.
pub open spec fn name_text(module: Option<u32>, entry: u32, thumb: bool) -> Seq<char> {
    let kind = if thumb {
        "t"@
    } else {
        "f"@
    };
    let plain = text::fill("{}_{}"@, seq![kind, text::hex_wide(entry as nat, 8)]);
    match module {
        None => plain,
        Some(number) => text::fill("m{}_{}"@, seq![number_wide(number as nat), plain]),
    }
}

/// the number of a file or module in names.
pub open spec fn number_wide(number: nat) -> Seq<char> {
    text::padded(text::dec(number), 3)
}

/// an address as the host looks it up, bit 0 set for Thumb.
pub open spec fn key_of(address: u32, thumb: bool) -> u32 {
    if thumb {
        address | 1
    } else {
        address
    }
}

impl Names {
    pub open spec fn at(self, address: u32) -> Seq<char> {
        address_text(self.module, address)
    }

    /// reading a register, where r15 is the address the pipeline gives it.
    pub open spec fn reg(self, register: u32, pc: u32) -> Seq<char> {
        if register == 15 {
            self.at(pc)
        } else {
            register_text(register)
        }
    }

    /// the function at target was written.
    pub open spec fn knows(self, target: u32, thumb: bool) -> bool {
        self.functions.contains(key_of(target, thumb))
    }

    /// the C name of the function at target.
    pub open spec fn name(self, target: u32, thumb: bool) -> Seq<char> {
        name_text(self.module, target, thumb)
    }
}

/// the number of a file or module in names.
fn wide_number(number: u64) -> (text: String)
    ensures
        text@ == number_wide(number as nat),
{
    number_text(number, 10, 3)
}

fn name(module: Option<u32>, entry: u32, thumb: bool) -> (name: String)
    ensures
        name@ == name_text(module, entry, thumb),
{
    let kind = if thumb {
        "t"
    } else {
        "f"
    };
    let plain = form2("{}_{}", kind, word(entry).as_str());
    match module {
        None => plain,
        Some(number) => form2("m{}_{}", wide_number(number as u64).as_str(), plain.as_str()),
    }
}

/// an address as the host looks it up, bit 0 set for Thumb.
pub fn key(address: u32, thumb: bool) -> (key: u32)
    ensures
        key == key_of(address, thumb),
{
    if thumb {
        address | 1
    } else {
        address
    }
}

/// a register as C.
pub fn register(number: u32) -> (text: String)
    ensures
        text@ == register_text(number),
{
    form1("ctx->r[{}]", decimal(number).as_str())
}

impl<'a> Scope<'a> {
    /// an address as C.
    pub fn at(&self, address: u32) -> (text: String)
        ensures
            text@ == self@.at(address),
    {
        match self.module {
            None => form1("0x{}u", word(address).as_str()),
            Some(_) => form1("(module + 0x{}u)", word(address).as_str()),
        }
    }

    /// reading a register, where r15 is the address the pipeline gives it.
    pub fn reg(&self, number: u32, pc: u32) -> (text: String)
        ensures
            text@ == self@.reg(number, pc),
    {
        if number == 15 {
            self.at(pc)
        } else {
            register(number)
        }
    }

    /// the C name of the function at target, if it was written.
    fn function(&self, target: u32, thumb: bool) -> (found: Option<String>)
        ensures
            found is Some <==> self@.knows(target, thumb),
            found matches Some(name) ==> name@ == self@.name(target, thumb),
    {
        if self.functions.contains(&key(target, thumb)) {
            Some(name(self.module, target, thumb))
        } else {
            None
        }
    }
}

/// a call, with link the return address as lr holds it, bit 0 set when
/// the caller is Thumb.
pub open spec fn call_code(
    out: Seq<char>,
    scope: Names,
    link: u32,
    target: u32,
    thumb: bool,
) -> Code {
    let caller_thumb = link & 1 != 0;
    let out = text::emitted(
        out,
        "    ctx->r[14] = {}; ctx->r[15] = {};"@,
        seq![scope.at(link), scope.at(target)],
    );
    let out = if thumb == caller_thumb {
        out
    } else if thumb {
        text::emitted(out, "    ctx->thumb = 1;"@, Seq::empty())
    } else {
        text::emitted(out, "    ctx->thumb = 0;"@, Seq::empty())
    };
    let out = if scope.knows(target, thumb) {
        text::emitted(out, "    CALL({});"@, seq![scope.name(target, thumb)])
    } else {
        text::emitted(out, "    CALL(recomp_call);"@, Seq::empty())
    };
    let check = if caller_thumb {
        "RETURNED_T"@
    } else {
        "RETURNED"@
    };
    Code { text: text::emitted(out, "    {}({});"@, seq![check, scope.at(link & !1)]), on: true }
}

pub fn call(out: &mut String, scope: &Scope, link: u32, target: u32, thumb: bool) -> (on: bool)
    ensures
        (Code { text: final(out)@, on }) == call_code(old(out)@, scope@, link, target, thumb),
{
    let caller_thumb = link & 1 != 0;
    emit2(
        out,
        "    ctx->r[14] = {}; ctx->r[15] = {};",
        scope.at(link).as_str(),
        scope.at(target).as_str(),
    );
    if thumb != caller_thumb {
        if thumb {
            emit0(out, "    ctx->thumb = 1;");
        } else {
            emit0(out, "    ctx->thumb = 0;");
        }
    }
    match scope.function(target, thumb) {
        Some(name) => emit1(out, "    CALL({});", name.as_str()),
        None => emit0(out, "    CALL(recomp_call);"),
    }
    let check = if caller_thumb {
        "RETURNED_T"
    } else {
        "RETURNED"
    };
    emit2(out, "    {}({});", check, scope.at(link & !1).as_str());
    true
}

/// a branch without link, to a label of this function if it is one.
pub open spec fn jump_code(out: Seq<char>, scope: Names, target: u32, thumb: bool) -> Code {
    Code {
        text: if scope.labels.contains(target) {
            text::emitted(out, "    goto L_{};"@, seq![text::hex_wide(target as nat, 8)])
        } else if scope.knows(target, thumb) {
            // a tail call
            text::emitted(
                out,
                "    ctx->r[15] = {}; CALL({}); return;"@,
                seq![scope.at(target), scope.name(target, thumb)],
            )
        } else {
            text::emitted(out, "    target = {}; goto dispatch;"@, seq![scope.at(target)])
        },
        on: false,
    }
}

pub fn jump(out: &mut String, scope: &Scope, target: u32, thumb: bool) -> (on: bool)
    ensures
        (Code { text: final(out)@, on }) == jump_code(old(out)@, scope@, target, thumb),
{
    if scope.labels.contains(&target) {
        emit1(out, "    goto L_{};", word(target).as_str());
    } else if let Some(name) = scope.function(target, thumb) {
        // a tail call
        emit2(
            out,
            "    ctx->r[15] = {}; CALL({}); return;",
            scope.at(target).as_str(),
            name.as_str(),
        );
    } else {
        emit1(out, "    target = {}; goto dispatch;", scope.at(target).as_str());
    }
    false
}

/// the C test for a condition other than always.
#[verifier::opaque]
pub open spec fn condition_text(condition: u32) -> Seq<char> {
    if condition == 0 {
        "C_EQ"@
    } else if condition == 1 {
        "C_NE"@
    } else if condition == 2 {
        "C_CS"@
    } else if condition == 3 {
        "C_CC"@
    } else if condition == 4 {
        "C_MI"@
    } else if condition == 5 {
        "C_PL"@
    } else if condition == 6 {
        "C_VS"@
    } else if condition == 7 {
        "C_VC"@
    } else if condition == 8 {
        "C_HI"@
    } else if condition == 9 {
        "C_LS"@
    } else if condition == 10 {
        "C_GE"@
    } else if condition == 11 {
        "C_LT"@
    } else if condition == 12 {
        "C_GT"@
    } else {
        "C_LE"@
    }
}

/// the C test for a condition other than always.
pub fn condition_name(condition: u32) -> (name: &'static str)
    ensures
        name@ == condition_text(condition),
{
    reveal(condition_text);
    if condition == 0 {
        "C_EQ"
    } else if condition == 1 {
        "C_NE"
    } else if condition == 2 {
        "C_CS"
    } else if condition == 3 {
        "C_CC"
    } else if condition == 4 {
        "C_MI"
    } else if condition == 5 {
        "C_PL"
    } else if condition == 6 {
        "C_VS"
    } else if condition == 7 {
        "C_VC"
    } else if condition == 8 {
        "C_HI"
    } else if condition == 9 {
        "C_LS"
    } else if condition == 10 {
        "C_GE"
    } else if condition == 11 {
        "C_LT"
    } else if condition == 12 {
        "C_GT"
    } else {
        "C_LE"
    }
}

/// instructions per source file, so the files compile in parallel.
pub const FILE_SIZE: usize = 20_000;

/// a program to write as C, the executable or one of its modules by name.
pub struct Unit<'a> {
    pub module: Option<&'a str>,
    pub program: &'a Program,
    pub analysis: &'a Analysis,
}

/// whether a function becomes C, which it does unless its entry turned
/// out not to be code.
pub fn recompiles(entry: u32, function: &Function) -> (answer: bool)
    ensures
        answer == function.labels@.contains(entry),
{
    function.labels.contains(&entry)
}

/// the entries of the functions that become C.
pub open spec fn written(functions: Map<u32, Function>) -> Set<u32> {
    Set::new(
        |entry: u32| functions.contains_key(entry) && functions[entry].labels@.contains(entry),
    )
}

/// the functions that become C, the way calls refer to them.
pub open spec fn written_keys(functions: Map<u32, Function>) -> Set<u32> {
    Set::new(
        |key: u32|
            exists|entry: u32| #[trigger]
                written(functions).contains(entry) && key == key_of(
                    entry,
                    functions[entry].mode == Mode::Thumb,
                ),
    )
}

/// the entries of the functions that become C, from the lowest up.
pub fn written_entries(analysis: &Analysis) -> (entries: Vec<u32>)
    ensures
        sorted::lists(entries@, written(analysis.functions@)),
        entries@ == sorted::listing(written(analysis.functions@)),
{
    let all = sorted::sorted_keys(&analysis.functions);
    let mut entries: Vec<u32> = Vec::new();
    let ghost functions = analysis.functions@;
    for i in 0..all.len()
        invariant
            functions == analysis.functions@,
            sorted::lists(all@, functions.dom()),
            sorted::ascending(entries@),
            forall|j: int| 0 <= j < entries@.len() && i < all@.len() ==> #[trigger] entries@[j] < all@[i as int],
            forall|entry: u32| #[trigger]
                entries@.contains(entry) <==> written(functions).contains(entry) && exists|j: int|
                    0 <= j < i && #[trigger] all@[j] == entry,
    {
        let entry = all[i];
        assert(all@.contains(entry));
        let ghost before = entries@;
        if let Some(function) = analysis.functions.get(&entry) {
            if recompiles(entry, function) {
                entries.push(entry);
            }
        }
        proof {
            assert forall|other: u32| #[trigger]
                entries@.contains(other) <==> written(functions).contains(other) && exists|j: int|
                    0 <= j < i + 1 && #[trigger] all@[j] == other by {
                if entries@.contains(other) {
                    let k = entries@.index_of(other);
                    if k < before.len() {
                        assert(before.contains(other));
                    } else {
                        assert(all@[i as int] == other);
                    }
                }
                if written(functions).contains(other) && exists|j: int|
                    0 <= j < i + 1 && #[trigger] all@[j] == other {
                    let j = choose|j: int| 0 <= j < i + 1 && #[trigger] all@[j] == other;
                    if j < i {
                        assert(before.contains(other));
                        let k = before.index_of(other);
                        assert(entries@[k] == other);
                    } else {
                        assert(entries@[before.len() as int] == other);
                    }
                }
            }
        }
    }
    proof {
        assert forall|entry: u32| entries@.contains(entry) <==> written(functions).contains(
            entry,
        ) by {
            if written(functions).contains(entry) {
                assert(all@.contains(entry));
                let j = all@.index_of(entry);
                assert(all@[j] == entry);
            }
        }
        sorted::lemma_listing(entries@, written(functions));
    }
    entries
}

/// the functions that become C, the way calls refer to them.
fn entry_keys(analysis: &Analysis, entries: &Vec<u32>) -> (keys: BTreeSet<u32>)
    requires
        sorted::lists(entries@, written(analysis.functions@)),
    ensures
        keys@ == written_keys(analysis.functions@),
{
    let mut keys: BTreeSet<u32> = BTreeSet::new();
    let ghost functions = analysis.functions@;
    for i in 0..entries.len()
        invariant
            functions == analysis.functions@,
            sorted::lists(entries@, written(functions)),
            forall|key: u32| #[trigger]
                keys@.contains(key) <==> exists|j: int|
                    0 <= j < i && key == key_of(
                        #[trigger] entries@[j],
                        functions[entries@[j]].mode == Mode::Thumb,
                    ),
    {
        let entry = entries[i];
        assert(entries@.contains(entry));
        assert(written(functions).contains(entry));
        if let Some(function) = analysis.functions.get(&entry) {
            keys.insert(key(entry, function.mode == Mode::Thumb));
        }
    }
    assert(keys@ =~= written_keys(functions)) by {
        assert forall|key: u32| keys@.contains(key) <==> written_keys(functions).contains(key) by {
            if keys@.contains(key) {
                let j = choose|j: int|
                    0 <= j < entries@.len() && key == key_of(
                        #[trigger] entries@[j],
                        functions[entries@[j]].mode == Mode::Thumb,
                    );
                assert(entries@.contains(entries@[j]));
                assert(written(functions).contains(entries@[j]));
            }
            if written_keys(functions).contains(key) {
                let entry = choose|entry: u32| #[trigger]
                    written(functions).contains(entry) && key == key_of(
                        entry,
                        functions[entry].mode == Mode::Thumb,
                    );
                assert(entries@.contains(entry));
                let j = entries@.index_of(entry);
                assert(entries@[j] == entry);
            }
        }
    }
    keys
}

/// the instructions from number on up to the next label.
pub open spec fn run_from(instructions: Seq<u32>, labels: Set<u32>, number: nat) -> nat
    decreases instructions.len() - number,
{
    if number >= instructions.len() || labels.contains(instructions[number as int]) {
        0
    } else {
        1 + run_from(instructions, labels, number + 1)
    }
}

/// how many instructions run from number on before the next label.
fn run_length(instructions: &Vec<u32>, labels: &BTreeSet<u32>, number: usize) -> (count: usize)
    requires
        number <= instructions@.len(),
    ensures
        count == run_from(instructions@, labels@, number as nat),
        number + count <= instructions@.len(),
{
    let mut at = number;
    while at < instructions.len() && !labels.contains(&instructions[at])
        invariant
            number <= at <= instructions@.len(),
            run_from(instructions@, labels@, number as nat) == at - number + run_from(
                instructions@,
                labels@,
                at as nat,
            ),
        decreases instructions@.len() - at,
    {
        at += 1;
    }
    at - number
}

/// the halfword at address, zero when it is not there.
pub open spec fn half_or_zero(text: Segment, address: u32) -> u16 {
    match text.half_at(address) {
        Some(half) => half,
        None => 0,
    }
}

/// the word at address, zero when it is not there.
pub open spec fn word_or_zero(text: Segment, address: u32) -> u32 {
    match text.word_at(address) {
        Some(word) => word,
        None => 0,
    }
}

/// the bytes the instruction at address takes.
pub open spec fn instruction_size(code: Segment, thumb: bool, address: u32) -> u32 {
    if thumb {
        crate::thumb::size_of(
            half_or_zero(code, address),
            Some(half_or_zero(code, address.wrapping_add(2))),
        )
    } else {
        4
    }
}

/// the C for the instruction at address with a comment saying what it is.
pub open spec fn instruction_code(
    out: Seq<char>,
    code: Segment,
    scope: Names,
    thumb: bool,
    address: u32,
) -> Code {
    let place = text::hex_wide(address as nat, 8);
    if thumb {
        let op = half_or_zero(code, address) as u32;
        let second = half_or_zero(code, address.wrapping_add(2)) as u32;
        let out = text::emitted(
            out,
            "    /* {} {} */"@,
            seq![place, text::hex_wide(op as nat, 4)],
        );
        thumb::lower_code(out, scope, address, op, second)
    } else {
        let op = word_or_zero(code, address);
        let out = text::emitted(
            out,
            "    /* {} {} */"@,
            seq![place, text::hex_wide(op as nat, 8)],
        );
        arm::lower_code(out, scope, address, op)
    }
}

/// the C for one of the instructions of a function, with its label in front
/// and the way to what comes after it when that is somewhere else.
pub open spec fn step_text(
    out: Seq<char>,
    code: Segment,
    scope: Names,
    thumb: bool,
    instructions: Seq<u32>,
    number: int,
) -> Seq<char> {
    let address = instructions[number];
    let out = if scope.labels.contains(address) {
        let run = run_from(instructions, scope.labels, (number + 1) as nat) + 1;
        let out = text::emitted(out, "L_{}:"@, seq![text::hex_wide(address as nat, 8)]);
        text::emitted(out, "    BUDGET({}, {});"@, seq![scope.at(address), text::dec(run)])
    } else {
        out
    };
    let lowered = instruction_code(out, code, scope, thumb, address);
    let next = address.wrapping_add(instruction_size(code, thumb, address));
    if lowered.on && !(number + 1 < instructions.len() && instructions[number + 1] == next) {
        text::emitted(lowered.text, "    target = {}; goto dispatch;"@, seq![scope.at(next)])
    } else {
        lowered.text
    }
}

/// the C for the first count of the instructions of a function.
pub open spec fn steps_text(
    out: Seq<char>,
    code: Segment,
    scope: Names,
    thumb: bool,
    instructions: Seq<u32>,
    count: nat,
) -> Seq<char>
    decreases count,
{
    if count == 0 {
        out
    } else {
        step_text(
            steps_text(out, code, scope, thumb, instructions, (count - 1) as nat),
            code,
            scope,
            thumb,
            instructions,
            count - 1,
        )
    }
}

/// the way to each of the first count of labels.
pub open spec fn cases_text(out: Seq<char>, labels: Seq<u32>, count: nat) -> Seq<char>
    decreases count,
{
    if count == 0 {
        out
    } else {
        let label = text::hex_wide(labels[count - 1] as nat, 8);
        text::emitted(
            cases_text(out, labels, (count - 1) as nat),
            "    case 0x{}u: goto L_{};"@,
            seq![label, label],
        )
    }
}

/// the variable that holds where a module is loaded.
pub open spec fn base_text(module: u32) -> Seq<char> {
    text::fill("recomp_base_{}"@, seq![number_wide(module as nat)])
}

fn base_name(module: u32) -> (name: String)
    ensures
        name@ == base_text(module),
{
    form1("recomp_base_{}", wide_number(module as u64).as_str())
}

/// the C test for the state a function runs in.
pub open spec fn state_text(thumb: bool) -> Seq<char> {
    if thumb {
        "ctx->thumb"@
    } else {
        "!ctx->thumb"@
    }
}

/// the start of the C function, which finds the label to start at.
pub open spec fn opening_text(
    out: Seq<char>,
    scope: Names,
    thumb: bool,
    entry: u32,
    labels: Seq<u32>,
) -> Seq<char> {
    let out = text::emitted(out, "void {}(Context *ctx) {"@, seq![scope.name(entry, thumb)]);
    let out = match scope.module {
        None => out,
        Some(module) => text::emitted(
            out,
            "    const uint32_t module = {};"@,
            seq![base_text(module)],
        ),
    };
    let out = text::emitted(out, "    uint32_t target = ctx->r[15];"@, Seq::empty());
    let out = text::emitted(
        out,
        "    if (LIKELY(target == {} && {})) goto L_{};"@,
        seq![scope.at(entry), state_text(thumb), text::hex_wide(entry as nat, 8)],
    );
    let out = text::emitted(out, "dispatch:"@, Seq::empty());
    let out = match scope.module {
        None => text::emitted(out, "    if ({}) switch (target) {"@, seq![state_text(thumb)]),
        Some(_) => text::emitted(
            out,
            "    if ({}) switch (target - module) {"@,
            seq![state_text(thumb)],
        ),
    };
    let out = cases_text(out, labels, labels.len());
    let out = text::emitted(out, "    }"@, Seq::empty());
    // somewhere else, the host knows where
    let out = text::emitted(out, "    ctx->r[15] = target;"@, Seq::empty());
    let out = text::emitted(out, "    CALL(recomp_call);"@, Seq::empty());
    text::emitted(out, "    return;"@, Seq::empty())
}

/// a function as C.
pub open spec fn function_text(
    out: Seq<char>,
    code: Segment,
    functions: Map<u32, Function>,
    module: Option<u32>,
    entry: u32,
) -> Seq<char> {
    let function = functions[entry];
    let thumb = function.mode == Mode::Thumb;
    let scope = Names {
        labels: function.labels@,
        functions: written_keys(functions),
        module,
    };
    let instructions = function.instructions@;
    let out = opening_text(out, scope, thumb, entry, sorted::listing(function.labels@));
    let out = steps_text(out, code, scope, thumb, instructions, instructions.len());
    text::emitted(out, "}\n"@, Seq::empty())
}

fn write_opening(out: &mut String, scope: &Scope, thumb: bool, entry: u32)
    ensures
        final(out)@ == opening_text(
            old(out)@,
            scope@,
            thumb,
            entry,
            sorted::listing(scope.labels@),
        ),
{
    let state = if thumb {
        "ctx->thumb"
    } else {
        "!ctx->thumb"
    };
    emit1(out, "void {}(Context *ctx) {", name(scope.module, entry, thumb).as_str());
    if let Some(module) = scope.module {
        emit1(out, "    const uint32_t module = {};", base_name(module).as_str());
    }
    emit0(out, "    uint32_t target = ctx->r[15];");
    emit3(
        out,
        "    if (LIKELY(target == {} && {})) goto L_{};",
        scope.at(entry).as_str(),
        state,
        word(entry).as_str(),
    );
    emit0(out, "dispatch:");
    match scope.module {
        None => emit1(out, "    if ({}) switch (target) {", state),
        Some(_) => emit1(out, "    if ({}) switch (target - module) {", state),
    }
    let labels = sorted::sorted_items(scope.labels);
    proof {
        sorted::lemma_listing(labels@, scope.labels@);
    }
    let ghost begun = out@;
    for i in 0..labels.len()
        invariant
            out@ == cases_text(begun, labels@, i as nat),
    {
        let label = word(labels[i]);
        emit2(out, "    case 0x{}u: goto L_{};", label.as_str(), label.as_str());
    }
    emit0(out, "    }");
    // somewhere else, the host knows where
    emit0(out, "    ctx->r[15] = target;");
    emit0(out, "    CALL(recomp_call);");
    emit0(out, "    return;");
}

/// writes one instruction of a function, returning whether execution can
/// carry on past it and its size.
fn write_instruction(out: &mut String, code: &Segment, scope: &Scope, thumb: bool, address: u32) -> (result:
    (bool, u32))
    ensures
        (Code { text: final(out)@, on: result.0 }) == instruction_code(
            old(out)@,
            *code,
            scope@,
            thumb,
            address,
        ),
        result.1 == instruction_size(*code, thumb, address),
{
    let place = word(address);
    if thumb {
        let op = match code.read16(address) {
            Some(half) => half,
            None => 0,
        };
        let second = match code.read16(address.wrapping_add(2)) {
            Some(half) => half,
            None => 0,
        };
        let size = crate::thumb::decode(op, Some(second), address).1;
        emit2(
            out,
            "    /* {} {} */",
            place.as_str(),
            number_text(op as u64, 16, 4).as_str(),
        );
        (thumb::lower(out, scope, address, op as u32, second as u32), size)
    } else {
        let op = match code.read32(address) {
            Some(op) => op,
            None => 0,
        };
        emit2(out, "    /* {} {} */", place.as_str(), word(op).as_str());
        (arm::lower(out, scope, address, op), 4)
    }
}

/// writes a function as C.
fn write_function(
    out: &mut String,
    program: &Program,
    analysis: &Analysis,
    names: &BTreeSet<u32>,
    module: Option<u32>,
    entry: u32,
)
    requires
        written(analysis.functions@).contains(entry),
        names@ == written_keys(analysis.functions@),
    ensures
        final(out)@ == function_text(
            old(out)@,
            program.text,
            analysis.functions@,
            module,
            entry,
        ),
{
    let function = match analysis.functions.get(&entry) {
        Some(function) => function,
        None => return,
    };
    let thumb = function.mode == Mode::Thumb;
    let scope = Scope { labels: &function.labels, functions: names, module };
    write_opening(out, &scope, thumb, entry);
    let instructions = &function.instructions;
    let ghost begun = out@;
    for i in 0..instructions.len()
        invariant
            function == analysis.functions@[entry],
            scope.labels@ == function.labels@,
            instructions@ == function.instructions@,
            out@ == steps_text(
                begun,
                program.text,
                scope@,
                thumb,
                instructions@,
                i as nat,
            ),
    {
        let address = instructions[i];
        if function.labels.contains(&address) {
            let run = run_length(instructions, &function.labels, i + 1) + 1;
            emit1(out, "L_{}:", word(address).as_str());
            emit2(
                out,
                "    BUDGET({}, {});",
                scope.at(address).as_str(),
                decimal64(run as u64).as_str(),
            );
        }
        let (on, size) = write_instruction(out, &program.text, &scope, thumb, address);
        let next = address.wrapping_add(size);
        if on && !(i + 1 < instructions.len() && instructions[i + 1] == next) {
            emit1(out, "    target = {}; goto dispatch;", scope.at(next).as_str());
        }
    }
    emit0(out, "}\n");
}

/// the header of a program.
pub open spec fn header_text(module: Option<u32>) -> Seq<char> {
    match module {
        None => "functions.h"@,
        Some(number) => text::fill("module{}.h"@, seq![number_wide(number as nat)]),
    }
}

fn header_name(module: Option<u32>) -> (name: String)
    ensures
        name@ == header_text(module),
{
    match module {
        None => "functions.h".to_owned(),
        Some(number) => form1("module{}.h", wide_number(number as u64).as_str()),
    }
}

/// what every source file of a program starts with.
pub open spec fn prelude_text(module: Option<u32>) -> Seq<char> {
    text::fill("#include \"recomp.h\"\n#include \"{}\"\n\n"@, seq![header_text(module)])
}

fn prelude(module: Option<u32>) -> (text: String)
    ensures
        text@ == prelude_text(module),
{
    form1("#include \"recomp.h\"\n#include \"{}\"\n\n", header_name(module).as_str())
}

/// the prototypes of the first count of entries.
pub open spec fn prototypes_text(
    out: Seq<char>,
    functions: Map<u32, Function>,
    module: Option<u32>,
    entries: Seq<u32>,
    count: nat,
) -> Seq<char>
    decreases count,
{
    if count == 0 {
        out
    } else {
        let entry = entries[count - 1];
        text::emitted(
            prototypes_text(out, functions, module, entries, (count - 1) as nat),
            "void {}(Context *ctx);"@,
            seq![name_text(module, entry, functions[entry].mode == Mode::Thumb)],
        )
    }
}

/// the contents of the header of a program.
pub open spec fn header_contents(functions: Map<u32, Function>, module: Option<u32>) -> Seq<char> {
    let entries = sorted::listing(written(functions));
    let out = match module {
        None => Seq::empty(),
        Some(number) => text::emitted(
            Seq::empty(),
            "extern uint32_t {};"@,
            seq![base_text(number)],
        ),
    };
    prototypes_text(out, functions, module, entries, entries.len())
}

fn write_header(analysis: &Analysis, module: Option<u32>) -> (contents: String)
    ensures
        contents@ == header_contents(analysis.functions@, module),
{
    let entries = written_entries(analysis);
    let ghost functions = analysis.functions@;
    let mut out = String::new();
    assert(out@ =~= Seq::empty());
    if let Some(number) = module {
        emit1(&mut out, "extern uint32_t {};", base_name(number).as_str());
    }
    let ghost begun = out@;
    for i in 0..entries.len()
        invariant
            functions == analysis.functions@,
            sorted::lists(entries@, written(functions)),
            out@ == prototypes_text(begun, functions, module, entries@, i as nat),
    {
        let entry = entries[i];
        assert(entries@.contains(entry));
        assert(written(functions).contains(entry));
        if let Some(function) = analysis.functions.get(&entry) {
            let thumb = function.mode == Mode::Thumb;
            emit1(&mut out, "void {}(Context *ctx);", name(module, entry, thumb).as_str());
        }
    }
    out
}

/// a file as its name and contents.
pub open spec fn file_views(files: Seq<(String, String)>) -> Seq<(Seq<char>, Seq<char>)> {
    files.map_values(|file: (String, String)| (file.0@, file.1@))
}

fn push_file(files: &mut Vec<(String, String)>, name: String, contents: String)
    ensures
        file_views(final(files)@) == file_views(old(files)@).push((name@, contents@)),
{
    let ghost before = file_views(files@);
    files.push((name, contents));
    assert(file_views(files@) =~= before.push((name@, contents@)));
}

/// the source files so far, and the one being written.
#[verifier::ext_equal]
pub struct Sources {
    pub files: Seq<(Seq<char>, Seq<char>)>,
    pub source: Seq<char>,
    /// the instructions in the one being written.
    pub size: nat,
    /// how many files of code there are.
    pub count: nat,
}

/// the name of a file of code.
pub open spec fn code_text(count: nat) -> Seq<char> {
    text::fill("code{}.c"@, seq![number_wide(count)])
}

impl Sources {
    /// the file being written is done.
    pub open spec fn finished(self) -> Sources {
        Sources {
            files: self.files.push((code_text(self.count), self.source)),
            source: Seq::empty(),
            size: 0,
            count: self.count + 1,
        }
    }
}

/// the sources with one more function in them.
pub open spec fn function_added(
    sources: Sources,
    code: Segment,
    functions: Map<u32, Function>,
    module: Option<u32>,
    entry: u32,
) -> Sources {
    let begun = if sources.source.len() == 0 {
        prelude_text(module)
    } else {
        sources.source
    };
    let next = Sources {
        source: function_text(begun, code, functions, module, entry),
        size: sources.size + functions[entry].instructions@.len(),
        ..sources
    };
    if next.size >= FILE_SIZE {
        next.finished()
    } else {
        next
    }
}

/// the sources with the first count of entries in them.
pub open spec fn functions_added(
    sources: Sources,
    code: Segment,
    functions: Map<u32, Function>,
    module: Option<u32>,
    entries: Seq<u32>,
    count: nat,
) -> Sources
    decreases count,
{
    if count == 0 {
        sources
    } else {
        function_added(
            functions_added(sources, code, functions, module, entries, (count - 1) as nat),
            code,
            functions,
            module,
            entries[count - 1],
        )
    }
}

/// the sources with a program in them, in files of its own.
pub open spec fn program_added(
    sources: Sources,
    code: Segment,
    functions: Map<u32, Function>,
    module: Option<u32>,
) -> Sources {
    let entries = sorted::listing(written(functions));
    let added = functions_added(sources, code, functions, module, entries, entries.len());
    if added.source.len() == 0 {
        Sources { size: 0, ..added }
    } else {
        added.finished()
    }
}

/// writes the code of a program, count being the files of code so far.
fn write_program(
    files: &mut Vec<(String, String)>,
    count: u64,
    program: &Program,
    analysis: &Analysis,
    module: Option<u32>,
) -> (total: u64)
    requires
        count + analysis.functions@.dom().len() < u64::MAX,
    ensures
        ({
            let before = Sources {
                files: file_views(old(files)@),
                source: Seq::empty(),
                size: 0,
                count: count as nat,
            };
            let after = program_added(before, program.text, analysis.functions@, module);
            &&& file_views(final(files)@) == after.files
            &&& total == after.count
            &&& after.source.len() == 0
            &&& after.size == 0
        }),
        total <= count + analysis.functions@.dom().len() + 1,
{
    let entries = written_entries(analysis);
    let names = entry_keys(analysis, &entries);
    let ghost functions = analysis.functions@;
    let ghost before = Sources {
        files: file_views(files@),
        source: Seq::empty(),
        size: 0,
        count: count as nat,
    };
    let mut source = String::new();
    let mut size: usize = 0;
    let mut total = count;
    proof {
        lemma_entries_bound(entries@, functions);
    }
    assert(source@ =~= Seq::empty());
    for i in 0..entries.len()
        invariant
            functions == analysis.functions@,
            sorted::lists(entries@, written(functions)),
            names@ == written_keys(functions),
            entries@.len() <= functions.dom().len(),
            count + functions.dom().len() < u64::MAX,
            total <= count + i,
            size < FILE_SIZE,
            (Sources { files: file_views(files@), source: source@, size: size as nat, count: total as nat })
                == functions_added(before, program.text, functions, module, entries@, i as nat),
    {
        let entry = entries[i];
        assert(entries@.contains(entry));
        assert(written(functions).contains(entry));
        if source.as_str().is_empty() {
            source = prelude(module);
        }
        write_function(&mut source, program, analysis, &names, module, entry);
        let length = match analysis.functions.get(&entry) {
            Some(function) => function.instructions.len(),
            None => 0,
        };
        if length >= FILE_SIZE - size {
            let name = form1("code{}.c", wide_number(total).as_str());
            push_file(files, name, source);
            source = String::new();
            assert(source@ =~= Seq::empty());
            size = 0;
            total += 1;
        } else {
            size += length;
        }
    }
    if !source.as_str().is_empty() {
        let name = form1("code{}.c", wide_number(total).as_str());
        push_file(files, name, source);
        total += 1;
    }
    total
}

proof fn lemma_entries_bound(entries: Seq<u32>, functions: Map<u32, Function>)
    requires
        sorted::lists(entries, written(functions)),
    ensures
        entries.len() <= functions.dom().len(),
{
    crate::discover::lemma_addresses_finite(functions.dom());
    assert(entries.no_duplicates());
    entries.unique_seq_to_set();
    assert(entries.to_set().subset_of(functions.dom())) by {
        assert forall|entry: u32| entries.to_set().contains(entry) implies functions.dom().contains(
            entry,
        ) by {
            assert(entries.contains(entry));
            assert(written(functions).contains(entry));
        }
    }
    vstd::set_lib::lemma_len_subset(entries.to_set(), functions.dom());
}

/// table with the first count of labels of the function at entry entered,
/// as what the host looks up and the function that has it. what another
/// function has already is only taken over where this one starts.
pub open spec fn labels_entered(
    table: Map<u32, u32>,
    entry: u32,
    thumb: bool,
    labels: Seq<u32>,
    count: nat,
) -> Map<u32, u32>
    decreases count,
{
    if count == 0 {
        table
    } else {
        let before = labels_entered(table, entry, thumb, labels, (count - 1) as nat);
        let label = labels[count - 1];
        if before.contains_key(key_of(label, thumb)) && label != entry {
            before
        } else {
            before.insert(key_of(label, thumb), entry)
        }
    }
}

/// the table of the first count of entries.
pub open spec fn functions_entered(
    functions: Map<u32, Function>,
    entries: Seq<u32>,
    count: nat,
) -> Map<u32, u32>
    decreases count,
{
    if count == 0 {
        Map::empty()
    } else {
        let entry = entries[count - 1];
        let labels = sorted::listing(functions[entry].labels@);
        labels_entered(
            functions_entered(functions, entries, (count - 1) as nat),
            entry,
            functions[entry].mode == Mode::Thumb,
            labels,
            labels.len(),
        )
    }
}

/// every label the host can resume at and the function that has it,
/// preferring the one that starts there.
pub open spec fn entry_table(functions: Map<u32, Function>) -> Map<u32, u32> {
    let entries = sorted::listing(written(functions));
    functions_entered(functions, entries, entries.len())
}

fn find_entries(analysis: &Analysis) -> (table: BTreeMap<u32, u32>)
    ensures
        table@ == entry_table(analysis.functions@),
{
    let entries = written_entries(analysis);
    let ghost functions = analysis.functions@;
    let mut table: BTreeMap<u32, u32> = BTreeMap::new();
    for i in 0..entries.len()
        invariant
            functions == analysis.functions@,
            sorted::lists(entries@, written(functions)),
            table@ == functions_entered(functions, entries@, i as nat),
    {
        let entry = entries[i];
        assert(entries@.contains(entry));
        assert(written(functions).contains(entry));
        if let Some(function) = analysis.functions.get(&entry) {
            let thumb = function.mode == Mode::Thumb;
            let labels = sorted::sorted_items(&function.labels);
            proof {
                sorted::lemma_listing(labels@, function.labels@);
            }
            let ghost before = table@;
            for j in 0..labels.len()
                invariant
                    table@ == labels_entered(before, entry, thumb, labels@, j as nat),
            {
                let place = key(labels[j], thumb);
                if labels[j] == entry || !table.contains_key(&place) {
                    table.insert(place, entry);
                }
            }
        }
    }
    table
}

/// the first count of the entries in keys, as C.
pub open spec fn entries_text(
    out: Seq<char>,
    functions: Map<u32, Function>,
    module: Option<u32>,
    keys: Seq<u32>,
    count: nat,
) -> Seq<char>
    decreases count,
{
    if count == 0 {
        out
    } else {
        let key = keys[count - 1];
        let owner = entry_table(functions)[key];
        text::emitted(
            entries_text(out, functions, module, keys, (count - 1) as nat),
            "    {0x{}u, {}},"@,
            seq![
                text::hex_wide(key as nat, 8),
                name_text(module, owner, functions[owner].mode == Mode::Thumb),
            ],
        )
    }
}

/// all of the entries of a program, as C, from the lowest up.
pub open spec fn table_text(
    out: Seq<char>,
    functions: Map<u32, Function>,
    module: Option<u32>,
) -> Seq<char> {
    let keys = sorted::listing(entry_table(functions).dom());
    let out = entries_text(out, functions, module, keys, keys.len());
    text::emitted(out, "};"@, Seq::empty())
}

/// writes the entries of a program.
fn write_entries(out: &mut String, analysis: &Analysis, table: &BTreeMap<u32, u32>, module: Option<u32>)
    requires
        table@ == entry_table(analysis.functions@),
    ensures
        final(out)@ == table_text(old(out)@, analysis.functions@, module),
{
    let keys = sorted::sorted_keys(table);
    let ghost functions = analysis.functions@;
    proof {
        sorted::lemma_listing(keys@, table@.dom());
        law_entries_have_owners(functions);
    }
    let ghost begun = out@;
    for i in 0..keys.len()
        invariant
            functions == analysis.functions@,
            table@ == entry_table(functions),
            sorted::lists(keys@, table@.dom()),
            forall|key: u32| #[trigger]
                entry_table(functions).contains_key(key) ==> written(functions).contains(
                    entry_table(functions)[key],
                ),
            out@ == entries_text(begun, functions, module, keys@, i as nat),
    {
        let place = keys[i];
        assert(keys@.contains(place));
        assert(table@.contains_key(place));
        if let Some(owner) = table.get(&place) {
            assert(written(functions).contains(*owner));
            if let Some(function) = analysis.functions.get(owner) {
                let thumb = function.mode == Mode::Thumb;
                emit2(
                    out,
                    "    {0x{}u, {}},",
                    word(place).as_str(),
                    name(module, *owner, thumb).as_str(),
                );
            }
        }
    }
    emit0(out, "};");
}

/// a label of the function at entry as the host looks it up.
pub open spec fn label_key(functions: Map<u32, Function>, entry: u32, label: u32) -> u32 {
    key_of(label, functions[entry].mode == Mode::Thumb)
}

/// key names a label of the function at entry.
pub open spec fn offers(functions: Map<u32, Function>, entry: u32, key: u32) -> bool {
    written(functions).contains(entry) && exists|label: u32| #[trigger]
        functions[entry].labels@.contains(label) && key == label_key(functions, entry, label)
}

proof fn lemma_labels_entered(
    functions: Map<u32, Function>,
    table: Map<u32, u32>,
    entry: u32,
    labels: Seq<u32>,
    count: nat,
)
    requires
        written(functions).contains(entry),
        sorted::lists(labels, functions[entry].labels@),
        count <= labels.len(),
        forall|key: u32| #[trigger]
            table.contains_key(key) ==> offers(functions, table[key], key),
    ensures
        ({
            let thumb = functions[entry].mode == Mode::Thumb;
            let after = labels_entered(table, entry, thumb, labels, count);
            &&& forall|key: u32| #[trigger]
                after.contains_key(key) ==> offers(functions, after[key], key)
            &&& forall|key: u32| #[trigger] table.contains_key(key) ==> after.contains_key(key)
            &&& forall|i: int|
                0 <= i < count ==> after.contains_key(key_of(#[trigger] labels[i], thumb))
        }),
    decreases count,
{
    if count > 0 {
        let thumb = functions[entry].mode == Mode::Thumb;
        lemma_labels_entered(functions, table, entry, labels, (count - 1) as nat);
        let label = labels[count - 1];
        assert(labels.contains(label));
        assert(functions[entry].labels@.contains(label));
        assert(label_key(functions, entry, label) == key_of(label, thumb));
        assert(offers(functions, entry, key_of(label, thumb)));
        let before = labels_entered(table, entry, thumb, labels, (count - 1) as nat);
        let after = labels_entered(table, entry, thumb, labels, count);
        assert(after.contains_key(key_of(label, thumb)));
        assert forall|key: u32| #[trigger] after.contains_key(key) implies offers(
            functions,
            after[key],
            key,
        ) by {
            assert(before.contains_key(key) || key == key_of(label, thumb));
        }
        assert forall|i: int| 0 <= i < count implies after.contains_key(
            key_of(#[trigger] labels[i], thumb),
        ) by {
            if i < count - 1 {
                assert(before.contains_key(key_of(labels[i], thumb)));
            }
        }
    }
}

proof fn lemma_functions_entered(functions: Map<u32, Function>, entries: Seq<u32>, count: nat)
    requires
        sorted::lists(entries, written(functions)),
        count <= entries.len(),
    ensures
        ({
            let table = functions_entered(functions, entries, count);
            &&& forall|key: u32| #[trigger]
                table.contains_key(key) ==> offers(functions, table[key], key)
            &&& forall|i: int, label: u32|
                0 <= i < count && functions[entries[i]].labels@.contains(label)
                    ==> table.contains_key(#[trigger] label_key(functions, entries[i], label))
        }),
    decreases count,
{
    if count > 0 {
        lemma_functions_entered(functions, entries, (count - 1) as nat);
        let entry = entries[count - 1];
        assert(entries.contains(entry));
        let labels = sorted::listing(functions[entry].labels@);
        sorted::law_listing(functions[entry].labels@);
        let before = functions_entered(functions, entries, (count - 1) as nat);
        lemma_labels_entered(functions, before, entry, labels, labels.len());
        let table = functions_entered(functions, entries, count);
        assert forall|i: int, label: u32|
            0 <= i < count && functions[entries[i]].labels@.contains(
                label,
            ) implies table.contains_key(#[trigger] label_key(functions, entries[i], label)) by {
            if i == count - 1 {
                assert(labels.contains(label));
                let j = labels.index_of(label);
                assert(labels[j] == label);
            } else {
                assert(before.contains_key(label_key(functions, entries[i], label)));
            }
        }
    }
}

/// every entry is a label of the function that has it.
pub proof fn law_entries_have_owners(functions: Map<u32, Function>)
    ensures
        forall|key: u32| #[trigger]
            entry_table(functions).contains_key(key) ==> offers(
                functions,
                entry_table(functions)[key],
                key,
            ),
{
    let entries = sorted::listing(written(functions));
    sorted::law_listing(written(functions));
    lemma_functions_entered(functions, entries, entries.len());
}

/// every label of every function that becomes C has an entry, so that the
/// host can come back to it.
pub proof fn law_labels_have_entries(functions: Map<u32, Function>, entry: u32, label: u32)
    requires
        written(functions).contains(entry),
        functions[entry].labels@.contains(label),
    ensures
        entry_table(functions).contains_key(label_key(functions, entry, label)),
{
    let entries = sorted::listing(written(functions));
    sorted::law_listing(written(functions));
    lemma_functions_entered(functions, entries, entries.len());
    assert(entries.contains(entry));
    let i = entries.index_of(entry);
    assert(entries[i] == entry);
}

/// key is where a function that becomes C starts.
pub open spec fn starts_at(functions: Map<u32, Function>, entry: u32, key: u32) -> bool {
    key == label_key(functions, entry, entry)
}

proof fn lemma_labels_prefer_start(
    functions: Map<u32, Function>,
    table: Map<u32, u32>,
    entry: u32,
    labels: Seq<u32>,
    count: nat,
    key: u32,
)
    requires
        count <= labels.len(),
    ensures
        ({
            let thumb = functions[entry].mode == Mode::Thumb;
            let after = labels_entered(table, entry, thumb, labels, count);
            &&& table.contains_key(key) && starts_at(functions, table[key], key)
                ==> after.contains_key(key) && starts_at(functions, after[key], key)
            &&& starts_at(functions, entry, key) && (exists|i: int|
                0 <= i < count && #[trigger] labels[i] == entry) ==> after.contains_key(key)
                && starts_at(functions, after[key], key)
        }),
    decreases count,
{
    if count > 0 {
        lemma_labels_prefer_start(functions, table, entry, labels, (count - 1) as nat, key);
        if exists|i: int| 0 <= i < count && #[trigger] labels[i] == entry {
            let i = choose|i: int| 0 <= i < count && #[trigger] labels[i] == entry;
            if i < count - 1 {
                assert(labels[i] == entry);
            }
        }
    }
}

proof fn lemma_functions_prefer_start(
    functions: Map<u32, Function>,
    entries: Seq<u32>,
    count: nat,
    number: int,
)
    requires
        sorted::lists(entries, written(functions)),
        0 <= number < count <= entries.len(),
    ensures
        ({
            let table = functions_entered(functions, entries, count);
            let key = label_key(functions, entries[number], entries[number]);
            table.contains_key(key) && starts_at(functions, table[key], key)
        }),
    decreases count,
{
    let entry = entries[count - 1];
    let key = label_key(functions, entries[number], entries[number]);
    let labels = sorted::listing(functions[entry].labels@);
    sorted::law_listing(functions[entry].labels@);
    let before = functions_entered(functions, entries, (count - 1) as nat);
    assert(entries.contains(entry));
    assert(written(functions).contains(entry));
    assert(labels.contains(entry));
    assert(labels[labels.index_of(entry)] == entry);
    if number < count - 1 {
        lemma_functions_prefer_start(functions, entries, (count - 1) as nat, number);
    }
    lemma_labels_prefer_start(functions, before, entry, labels, labels.len(), key);
}

/// where a function starts, the entry is one that starts there.
pub proof fn law_entries_prefer_starts(functions: Map<u32, Function>, entry: u32)
    requires
        written(functions).contains(entry),
    ensures
        ({
            let key = label_key(functions, entry, entry);
            &&& entry_table(functions).contains_key(key)
            &&& starts_at(functions, entry_table(functions)[key], key)
        }),
{
    let entries = sorted::listing(written(functions));
    sorted::law_listing(written(functions));
    assert(entries.contains(entry));
    let i = entries.index_of(entry);
    lemma_functions_prefer_start(functions, entries, entries.len(), i);
}

/// the number of a program that is a module, the executable comes first.
pub open spec fn module_number(number: int) -> Option<u32> {
    if number == 0 {
        None
    } else {
        Some((number - 1) as u32)
    }
}

/// the executable and then its modules.
pub open spec fn in_order(units: Seq<Unit>) -> bool {
    &&& 0 < units.len() <= u32::MAX
    &&& units[0].module is None
    &&& forall|i: int| 0 < i < units.len() ==> (#[trigger] units[i]).module is Some
}

/// the headers of the first count of units.
pub open spec fn headers_added(
    files: Seq<(Seq<char>, Seq<char>)>,
    units: Seq<Unit>,
    count: nat,
) -> Seq<(Seq<char>, Seq<char>)>
    decreases count,
{
    if count == 0 {
        files
    } else {
        let module = module_number(count - 1);
        headers_added(files, units, (count - 1) as nat).push(
            (
                header_text(module),
                header_contents(units[count - 1].analysis.functions@, module),
            ),
        )
    }
}

/// the sources of the first count of units.
pub open spec fn programs_added(
    files: Seq<(Seq<char>, Seq<char>)>,
    units: Seq<Unit>,
    count: nat,
) -> Sources
    decreases count,
{
    if count == 0 {
        Sources { files, source: Seq::empty(), size: 0, count: 0 }
    } else {
        let unit = units[count - 1];
        program_added(
            programs_added(files, units, (count - 1) as nat),
            unit.program.text,
            unit.analysis.functions@,
            module_number(count - 1),
        )
    }
}

/// the headers of the first count of units brought in.
pub open spec fn preludes_text(out: Seq<char>, count: nat) -> Seq<char>
    decreases count,
{
    if count == 0 {
        out
    } else {
        text::emitted(
            preludes_text(out, (count - 1) as nat),
            "#include \"{}\""@,
            seq![header_text(module_number(count - 1))],
        )
    }
}

/// the entries of the first count of modules, with the variables that hold
/// where they are loaded.
pub open spec fn module_tables_text(out: Seq<char>, units: Seq<Unit>, count: nat) -> Seq<char>
    decreases count,
{
    if count == 0 {
        out
    } else {
        let out = module_tables_text(out, units, (count - 1) as nat);
        let number = (count - 1) as u32;
        let out = text::emitted(out, "uint32_t {};"@, seq![base_text(number)]);
        let out = text::emitted(
            out,
            "static const Entry recomp_entries_{}[] = {"@,
            seq![number_wide(number as nat)],
        );
        table_text(out, units[count as int].analysis.functions@, Some(number))
    }
}

/// the first count of modules.
pub open spec fn modules_text(out: Seq<char>, units: Seq<Unit>, count: nat) -> Seq<char>
    decreases count,
{
    if count == 0 {
        out
    } else {
        let unit = units[count as int];
        let number = (count - 1) as u32;
        text::emitted(
            modules_text(out, units, (count - 1) as nat),
            "    {\"{}\", &{}, 0x{}u, {}, recomp_entries_{}},"@,
            seq![
                (unit.module->0)@,
                base_text(number),
                text::hex_wide(unit.program.text.limit() as nat, 8),
                text::dec(entry_table(unit.analysis.functions@).dom().len()),
                number_wide(number as nat),
            ],
        )
    }
}

/// the file with the tables the host reads.
pub open spec fn tables_text(units: Seq<Unit>) -> Seq<char> {
    let functions = units[0].analysis.functions@;
    let modules = (units.len() - 1) as nat;
    let out = text::emitted(Seq::empty(), "#include \"recomp.h\""@, Seq::empty());
    let out = preludes_text(out, units.len());
    let out = text::emitted(out, ""@, Seq::empty());
    let out = text::emitted(
        out,
        "RECOMP_EXPORT const uint32_t recomp_abi = RECOMP_ABI;"@,
        Seq::empty(),
    );
    let out = text::emitted(
        out,
        "RECOMP_EXPORT const uint32_t recomp_entry_count = {};"@,
        seq![text::dec(entry_table(functions).dom().len())],
    );
    let out = text::emitted(
        out,
        "RECOMP_EXPORT const Entry recomp_entries[] = {"@,
        Seq::empty(),
    );
    let out = table_text(out, functions, None);
    let out = module_tables_text(out, units, modules);
    let out = text::emitted(
        out,
        "RECOMP_EXPORT const uint32_t recomp_module_count = {};"@,
        seq![text::dec(modules)],
    );
    let out = text::emitted(
        out,
        "RECOMP_EXPORT const Module recomp_modules[] = {"@,
        Seq::empty(),
    );
    let out = modules_text(out, units, modules);
    text::emitted(out, "};"@, Seq::empty())
}

/// the C sources for a title, as file names and contents.
pub open spec fn generated(header: Seq<char>, units: Seq<Unit>) -> Seq<(Seq<char>, Seq<char>)> {
    let files = headers_added(seq![("recomp.h"@, header)], units, units.len());
    programs_added(files, units, units.len()).files.push(("entries.c"@, tables_text(units)))
}

/// the number of entries in a table of them.
fn entry_count(table: &BTreeMap<u32, u32>) -> (count: usize)
    ensures
        count == table@.dom().len(),
{
    let keys = sorted::sorted_keys(table);
    proof {
        crate::discover::lemma_addresses_finite(table@.dom());
        assert(keys@.no_duplicates());
        keys@.unique_seq_to_set();
        assert(keys@.to_set() =~= table@.dom());
    }
    keys.len()
}

/// writes the file with the tables the host reads.
fn write_tables(units: &[Unit]) -> (contents: String)
    requires
        in_order(units@),
    ensures
        contents@ == tables_text(units@),
{
    let count = units.len();
    let modules = count - 1;
    let mut out = String::new();
    assert(out@ =~= Seq::empty());
    emit0(&mut out, "#include \"recomp.h\"");
    let ghost begun = out@;
    for i in 0..count
        invariant
            in_order(units@),
            count == units@.len(),
            out@ == preludes_text(begun, i as nat),
    {
        let module = if i == 0 {
            None
        } else {
            Some((i - 1) as u32)
        };
        emit1(&mut out, "#include \"{}\"", header_name(module).as_str());
    }
    emit0(&mut out, "");
    let table = find_entries(units[0].analysis);
    emit0(&mut out, "RECOMP_EXPORT const uint32_t recomp_abi = RECOMP_ABI;");
    emit1(
        &mut out,
        "RECOMP_EXPORT const uint32_t recomp_entry_count = {};",
        decimal64(entry_count(&table) as u64).as_str(),
    );
    emit0(&mut out, "RECOMP_EXPORT const Entry recomp_entries[] = {");
    write_entries(&mut out, units[0].analysis, &table, None);
    let ghost begun = out@;
    for i in 0..modules
        invariant
            in_order(units@),
            count == units@.len(),
            modules == count - 1,
            out@ == module_tables_text(begun, units@, i as nat),
    {
        let number = i as u32;
        let table = find_entries(units[i + 1].analysis);
        emit1(&mut out, "uint32_t {};", base_name(number).as_str());
        emit1(
            &mut out,
            "static const Entry recomp_entries_{}[] = {",
            wide_number(i as u64).as_str(),
        );
        write_entries(&mut out, units[i + 1].analysis, &table, Some(number));
    }
    emit1(
        &mut out,
        "RECOMP_EXPORT const uint32_t recomp_module_count = {};",
        decimal64(modules as u64).as_str(),
    );
    emit0(&mut out, "RECOMP_EXPORT const Module recomp_modules[] = {");
    let ghost begun = out@;
    for i in 0..modules
        invariant
            in_order(units@),
            count == units@.len(),
            modules == count - 1,
            out@ == modules_text(begun, units@, i as nat),
    {
        let unit = &units[i + 1];
        let table = find_entries(unit.analysis);
        let module = match unit.module {
            Some(module) => module,
            None => "",
        };
        emit5(
            &mut out,
            "    {\"{}\", &{}, 0x{}u, {}, recomp_entries_{}},",
            module,
            base_name(i as u32).as_str(),
            word(unit.program.text.end()).as_str(),
            decimal64(entry_count(&table) as u64).as_str(),
            wide_number(i as u64).as_str(),
        );
    }
    emit0(&mut out, "};");
    out
}

/// the C sources for a title, as file names and contents. units are its
/// executable and then its modules, and header is the interface they are
/// written against.
pub fn generate(header: &str, units: &[Unit]) -> (files: Vec<(String, String)>)
    requires
        in_order(units@),
    ensures
        file_views(files@) == generated(header@, units@),
{
    let mut files: Vec<(String, String)> = Vec::new();
    push_file(&mut files, "recomp.h".to_owned(), header.to_owned());
    let ghost begun = file_views(files@);
    assert(begun =~= seq![("recomp.h"@, header@)]);
    let count = units.len();
    for i in 0..count
        invariant
            in_order(units@),
            count == units@.len(),
            file_views(files@) == headers_added(begun, units@, i as nat),
    {
        let module = if i == 0 {
            None
        } else {
            Some((i - 1) as u32)
        };
        let contents = write_header(units[i].analysis, module);
        push_file(&mut files, header_name(module), contents);
    }
    let ghost begun = file_views(files@);
    let mut total: u64 = 0;
    for i in 0..count
        invariant
            in_order(units@),
            count == units@.len(),
            total <= i * 0x1_0000_0001,
            file_views(files@) == programs_added(begun, units@, i as nat).files,
            total == programs_added(begun, units@, i as nat).count,
            programs_added(begun, units@, i as nat).source == Seq::<char>::empty(),
            programs_added(begun, units@, i as nat).size == 0,
    {
        let module = if i == 0 {
            None
        } else {
            Some((i - 1) as u32)
        };
        proof {
            crate::discover::lemma_addresses_finite(units@[i as int].analysis.functions@.dom());
            assert(i * 0x1_0000_0001 + 0x1_0000_0000 < u64::MAX) by (nonlinear_arith)
                requires
                    i < 0xFFFF_FFFF,
            ;
        }
        total = write_program(&mut files, total, units[i].program, units[i].analysis, module);
    }
    let tables = write_tables(units);
    push_file(&mut files, "entries.c".to_owned(), tables);
    files
}

} // verus!
