//! what compiling the generated C into a shared library takes, but for
//! running the compiler.

use crate::text;
use crate::verify;
use vstd::prelude::*;

verus! {

/// what every source is compiled with. floating point has to round exactly
/// the way the interpreter does, so nothing may be fused into a multiply-add.
pub fn flags() -> (flags: Vec<String>)
    ensures
        verify::lines(flags@) == seq![
            "-O2"@,
            "-fPIC"@,
            "-fvisibility=hidden"@,
            "-ffp-contract=off"@,
            "-fno-math-errno"@,
            "-w"@,
        ],
{
    let mut flags: Vec<String> = Vec::new();
    flags.push("-O2".to_owned());
    flags.push("-fPIC".to_owned());
    flags.push("-fvisibility=hidden".to_owned());
    flags.push("-ffp-contract=off".to_owned());
    flags.push("-fno-math-errno".to_owned());
    flags.push("-w".to_owned());
    assert(verify::lines(flags@) =~= seq![
        "-O2"@,
        "-fPIC"@,
        "-fvisibility=hidden"@,
        "-ffp-contract=off"@,
        "-fno-math-errno"@,
        "-w"@,
    ]);
    flags
}

/// the first count of names with a space between them.
pub open spec fn joined(names: Seq<Seq<char>>, count: nat) -> Seq<char>
    decreases count,
{
    if count == 0 {
        Seq::empty()
    } else if count == 1 {
        names[0]
    } else {
        joined(names, (count - 1) as nat).push(' ') + names[count - 1]
    }
}

/// what to say of the sources that did not compile.
pub open spec fn failure_text(failed: Seq<Seq<char>>) -> Seq<char> {
    text::fill(
        "{} failed to compile, {}"@,
        seq![text::dec(failed.len()), joined(failed, failed.len())],
    )
}

/// whether every source compiled, given the ones that did not.
pub fn outcome(failed: &[String]) -> (result: Result<(), String>)
    ensures
        failed@.len() == 0 ==> result is Ok,
        failed@.len() > 0 ==> (result matches Err(message) && message@ == failure_text(
            verify::lines(failed@),
        )),
{
    let count = failed.len();
    if count == 0 {
        return Ok(());
    }
    let ghost names = verify::lines(failed@);
    let mut list = failed[0].clone();
    let mut i: usize = 1;
    while i < count
        invariant
            1 <= i <= count,
            count == failed@.len(),
            names == verify::lines(failed@),
            list@ == joined(names, i as nat),
        decreases count - i,
    {
        list.push(' ');
        list.append(failed[i].as_str());
        i += 1;
    }
    Err(
        text::form2(
            "{} failed to compile, {}",
            text::decimal64(count as u64).as_str(),
            list.as_str(),
        ),
    )
}

/// name ends in .c.
pub open spec fn names_source(name: Seq<char>) -> bool {
    name.len() >= 2 && name[name.len() - 2] == '.' && name[name.len() - 1] == 'c'
}

/// the sources among the first count of files.
pub open spec fn sources_among(
    files: Seq<(Seq<char>, Seq<char>)>,
    count: nat,
) -> Seq<Seq<char>>
    decreases count,
{
    if count == 0 {
        Seq::empty()
    } else {
        let before = sources_among(files, (count - 1) as nat);
        if names_source(files[count - 1].0) {
            before.push(files[count - 1].0)
        } else {
            before
        }
    }
}

/// the names of the files to compile.
pub fn sources(files: &[(String, String)]) -> (names: Vec<String>)
    ensures
        verify::lines(names@) == sources_among(
            crate::codegen::file_views(files@),
            files@.len(),
        ),
{
    let mut names: Vec<String> = Vec::new();
    let ghost views = crate::codegen::file_views(files@);
    assert(verify::lines(names@) =~= Seq::empty());
    for i in 0..files.len()
        invariant
            views == crate::codegen::file_views(files@),
            verify::lines(names@) == sources_among(views, i as nat),
    {
        let letters = text::characters(files[i].0.as_str());
        let count = letters.len();
        if count >= 2 && letters[count - 2] == '.' && letters[count - 1] == 'c' {
            let ghost before = verify::lines(names@);
            names.push(files[i].0.clone());
            assert(verify::lines(names@) =~= before.push(views[i as int].0));
        }
    }
    names
}

/// the file a title's library goes to.
pub fn library_name(program_id: u64) -> (name: String)
    ensures
        name@ == text::fill("{}.so"@, seq![text::hex_wide(program_id as nat, 16)]),
{
    text::form1("{}.so", text::number_text(program_id, 16, 16).as_str())
}

} // verus!
