//! a static recompiler for 3DS titles, as a library for tools that find a
//! title's code or recompile it themselves.
//!
//! rom reads the title, discover finds its functions and codegen writes them
//! as C against recomp.h. abi looks addresses up in a library built from
//! that, and verify holds what runs a recompiled function against an
//! interpreter.

use crate::cro::Module;
use crate::discover::Program;
use crate::image::Image;
use crate::rom::{DirEntry, FileEntry, RomFs, Title};
use vstd::prelude::*;

pub mod abi;
pub mod arm;
pub mod bytes;
pub mod codegen;
pub mod compile;
pub mod cro;
pub mod discover;
pub mod image;
pub mod report;
pub mod rom;
pub mod sorted;
pub mod text;
pub mod thumb;
pub mod verify;

verus! {

/// the code addresses in module that the first count of imports take from
/// it.
pub open spec fn taken_by(imports: Seq<(String, u32)>, module: Module, count: nat) -> Seq<u32>
    decreases count,
{
    if count == 0 {
        Seq::empty()
    } else {
        let before = taken_by(imports, module, (count - 1) as nat);
        let (name, tag) = imports[count - 1];
        match module.code_place(tag) {
            Some(address) => if name@ == module.name@ {
                before.push(address)
            } else {
                before
            },
            None => before,
        }
    }
}

/// the code addresses in module that the first count of files take from it.
pub open spec fn taken_by_files(
    files: Seq<(Module, Vec<u8>)>,
    module: Module,
    count: nat,
) -> Seq<u32>
    decreases count,
{
    if count == 0 {
        Seq::empty()
    } else {
        let imports = files[count - 1].0.anonymous_imports@;
        taken_by_files(files, module, (count - 1) as nat) + taken_by(
            imports,
            module,
            imports.len(),
        )
    }
}

/// the code addresses in module that other modules and the executable take
/// from it without a name.
pub open spec fn taken(
    files: Seq<(Module, Vec<u8>)>,
    crs: Option<Module>,
    module: Module,
) -> Seq<u32> {
    taken_by_files(files, module, files.len()) + match crs {
        Some(crs) => taken_by(crs.anonymous_imports@, module, crs.anonymous_imports@.len()),
        None => Seq::empty(),
    }
}

/// adds the code addresses in module that imports take from it.
fn push_taken(list: &mut Vec<u32>, imports: &Vec<(String, u32)>, module: &Module)
    ensures
        final(list)@ == old(list)@ + taken_by(imports@, *module, imports@.len()),
{
    for i in 0..imports.len()
        invariant
            list@ =~= old(list)@ + taken_by(imports@, *module, i as nat),
    {
        if imports[i].0 == module.name {
            if let Some(address) = module.code_address(imports[i].1) {
                list.push(address);
            }
        }
    }
}

/// the code addresses in module that the other modules, and the executable
/// through its crs, take from it without a name, which nothing else may lead
/// to.
pub fn imported(files: &[(Module, Vec<u8>)], crs: Option<&Module>, module: &Module) -> (list: Vec<u32>)
    ensures
        list@ == taken(
            files@,
            match crs {
                Some(crs) => Some(*crs),
                None => None,
            },
            *module,
        ),
{
    let mut list: Vec<u32> = Vec::new();
    for i in 0..files.len()
        invariant
            list@ =~= taken_by_files(files@, *module, i as nat),
    {
        push_taken(&mut list, &files[i].0.anonymous_imports, module);
    }
    if let Some(crs) = crs {
        push_taken(&mut list, &crs.anonymous_imports, module);
    }
    list
}

/// the modules among the first count of files that have code, as their
/// places in the list.
pub open spec fn with_code(
    files: Seq<(Module, Vec<u8>)>,
    crs: Option<Module>,
    count: nat,
) -> Seq<int>
    decreases count,
{
    if count == 0 {
        Seq::empty()
    } else {
        let before = with_code(files, crs, (count - 1) as nat);
        let (module, file) = files[count - 1];
        if module.code_of(file@, taken(files, crs, module)) is Some {
            before.push(count - 1)
        } else {
            before
        }
    }
}

/// program is what a module's code looks like.
pub open spec fn is_program_of(
    program: (String, Program),
    files: Seq<(Module, Vec<u8>)>,
    crs: Option<Module>,
    number: int,
) -> bool {
    let (module, file) = files[number];
    let (base, code) = module.code_of(file@, taken(files, crs, module))->0;
    &&& program.0@ == module.name@
    &&& program.1.text.base == base
    &&& program.1.text.bytes@ == code.code
    &&& program.1.seeds@ == code.seeds
    &&& program.1.slots matches Some(slots) && slots@ == code.slots
}

/// program is what the executable looks like.
pub open spec fn is_executable(
    program: (String, Program),
    image: Image,
    files: Seq<(Module, Vec<u8>)>,
    crs: Option<Module>,
) -> bool {
    let exports = match crs {
        Some(crs) => crs.exported(),
        None => Seq::empty(),
    };
    let imports = match crs {
        Some(module) => taken(files, crs, module),
        None => Seq::empty(),
    };
    &&& program.0@ == "executable"@
    &&& program.1.text == image.text
    &&& program.1.slots is None
    &&& program.1.seeds@ == image.seeds(exports, imports)
}

/// the title's programs, the executable first and then its modules, each
/// named and ready for discovery. files are the modules of the title and crs
/// describes its executable.
pub fn programs(image: Image, files: &[(Module, Vec<u8>)], crs: Option<&Module>) -> (programs: Vec<
    (String, Program),
>)
    ensures
        ({
            let own = match crs {
                Some(crs) => Some(*crs),
                None => None,
            };
            let modules = with_code(files@, own, files@.len());
            &&& programs@.len() == modules.len() + 1
            &&& is_executable(programs@[0], image, files@, own)
            &&& forall|i: int|
                0 <= i < modules.len() ==> is_program_of(
                    #[trigger] programs@[i + 1],
                    files@,
                    own,
                    modules[i],
                )
        }),
{
    let ghost own = match crs {
        Some(crs) => Some(*crs),
        None => None,
    };
    let (exports, taken) = match crs {
        Some(module) => (module.code_exports(), imported(files, crs, module)),
        None => (Vec::new(), Vec::new()),
    };
    assert(crs is None ==> exports@ =~= Seq::empty() && taken@ =~= Seq::empty());
    let mut programs: Vec<(String, Program)> = Vec::new();
    let executable = image.into_program(exports.as_slice(), taken.as_slice());
    programs.push(("executable".to_owned(), executable));
    assert(is_executable(programs@[0], image, files@, own));
    for i in 0..files.len()
        invariant
            own == (match crs {
                Some(crs) => Some(*crs),
                None => None,
            }),
            programs@.len() == with_code(files@, own, i as nat).len() + 1,
            is_executable(programs@[0], image, files@, own),
            forall|j: int|
                0 <= j < with_code(files@, own, i as nat).len() ==> is_program_of(
                    #[trigger] programs@[j + 1],
                    files@,
                    own,
                    with_code(files@, own, i as nat)[j],
                ),
    {
        let ghost before = programs@;
        let module = &files[i].0;
        let list = imported(files, crs, module);
        if let Some(program) = module.program(files[i].1.as_slice(), list.as_slice()) {
            programs.push((module.name.clone(), program));
            assert(is_program_of(programs@.last(), files@, own, i as int));
            assert forall|j: int|
                0 <= j < with_code(files@, own, (i + 1) as nat).len() implies is_program_of(
                #[trigger] programs@[j + 1],
                files@,
                own,
                with_code(files@, own, (i + 1) as nat)[j],
            ) by {
                if j < with_code(files@, own, i as nat).len() {
                    assert(programs@[j + 1] == before[j + 1]);
                }
            }
        }
    }
    programs
}

/// name is that of a module, the case ignored.
pub open spec fn names_module(name: Seq<char>) -> bool {
    let lowered = text::lowered(name);
    lowered.len() >= 4 && lowered.skip(lowered.len() - 4) == ".cro"@
}

fn is_module_name(name: &str) -> (answer: bool)
    ensures
        answer == names_module(name@),
{
    let letters = text::characters(name);
    let count = letters.len();
    proof {
        reveal_strlit(".cro");
    }
    let ghost lowered = text::lowered(name@);
    if count < 4 {
        return false;
    }
    let answer = letters[count - 4] == '.' && text::to_lower(letters[count - 3]) == 'c'
        && text::to_lower(letters[count - 2]) == 'r' && text::to_lower(letters[count - 1]) == 'o';
    proof {
        let tail = lowered.skip(count - 4);
        let wanted = ".cro"@;
        assert(tail[0] == text::lower(name@[count - 4]));
        assert(tail[1] == text::lower(name@[count - 3]));
        assert(tail[2] == text::lower(name@[count - 2]));
        assert(tail[3] == text::lower(name@[count - 1]));
        if answer {
            assert(tail =~= wanted);
        }
    }
    answer
}

/// the modules among the first count of list.
pub open spec fn modules_among(list: Seq<(u32, rom::Filed)>, count: nat) -> Seq<rom::Filed>
    decreases count,
{
    if count == 0 {
        Seq::empty()
    } else {
        let before = modules_among(list, (count - 1) as nat);
        if names_module(list[count - 1].1.name) {
            before.push(list[count - 1].1)
        } else {
            before
        }
    }
}

/// the modules in dir and in the folders below it, going down up to depth
/// folders.
pub open spec fn modules_in(romfs: RomFs, dir: rom::Folder, depth: nat) -> Seq<rom::Filed>
    decreases depth, 1int, 0int,
{
    let files = romfs.filed(dir);
    let folders = romfs.folders(dir);
    modules_among(files, files.len()) + modules_below(romfs, folders, depth, folders.len())
}

/// the modules in the first count of folders and below them.
pub open spec fn modules_below(
    romfs: RomFs,
    folders: Seq<(u32, rom::Folder)>,
    depth: nat,
    count: nat,
) -> Seq<rom::Filed>
    decreases depth, 0int, count,
{
    if depth == 0 || count == 0 {
        Seq::empty()
    } else {
        modules_below(romfs, folders, depth, (count - 1) as nat) + modules_in(
            romfs,
            folders[count - 1].1,
            (depth - 1) as nat,
        )
    }
}

pub open spec fn filed_views(files: Seq<FileEntry>) -> Seq<rom::Filed> {
    files.map_values(|file: FileEntry| file@)
}

/// adds the modules in dir and below it.
fn find_modules(romfs: &RomFs, dir: &DirEntry, depth: usize, files: &mut Vec<FileEntry>)
    ensures
        filed_views(final(files)@) == filed_views(old(files)@) + modules_in(
            *romfs,
            dir@,
            depth as nat,
        ),
    decreases depth,
{
    let ghost before = filed_views(files@);
    let list = romfs.files(dir);
    let ghost here = romfs.filed(dir@);
    for i in 0..list.len()
        invariant
            here == rom::file_views(list@),
            filed_views(files@) =~= before + modules_among(here, i as nat),
    {
        let ghost last = filed_views(files@);
        assert(here[i as int] == (list@[i as int].0, list@[i as int].1@));
        if is_module_name(list[i].1.name.as_str()) {
            let file = copy_file(&list[i].1);
            let ghost filed = file@;
            files.push(file);
            assert(filed_views(files@) =~= last.push(filed));
        }
    }
    let ghost found = filed_views(files@);
    let folders = romfs.subdirs(dir);
    let ghost below = romfs.folders(dir@);
    if depth > 0 {
        for i in 0..folders.len()
            invariant
                depth > 0,
                below == rom::dir_views(folders@),
                filed_views(files@) =~= found + modules_below(
                    *romfs,
                    below,
                    depth as nat,
                    i as nat,
                ),
        {
            assert(below[i as int] == (folders@[i as int].0, folders@[i as int].1@));
            find_modules(romfs, &folders[i].1, depth - 1, files);
        }
    }
    assert(filed_views(files@) =~= before + modules_in(*romfs, dir@, depth as nat));
}

fn copy_file(file: &FileEntry) -> (copy: FileEntry)
    ensures
        copy@ == file@,
{
    FileEntry {
        next_sibling: file.next_sibling,
        data_offset: file.data_offset,
        data_size: file.data_size,
        name: file.name.clone(),
    }
}

/// the files of the title's modules. a tree of folders is no deeper than its
/// table is long.
pub fn module_entries(title: &Title) -> (files: Vec<FileEntry>)
    ensures
        filed_views(files@) == (match title.romfs {
            Some(romfs) => match rom::dir_at(romfs.dirs@, 0) {
                Some(root) => modules_in(romfs, root, romfs.dirs@.len()),
                None => Seq::empty(),
            },
            None => Seq::empty(),
        }),
{
    let mut files: Vec<FileEntry> = Vec::new();
    assert(filed_views(files@) =~= Seq::empty());
    if let Some(romfs) = &title.romfs {
        if let Ok(root) = romfs.root() {
            find_modules(romfs, &root, romfs.dirs.len(), &mut files);
            assert(filed_views(files@) =~= modules_in(*romfs, root@, romfs.dirs@.len()));
        }
    }
    files
}

/// the places of the files among the first count that are modules.
pub open spec fn parsing(files: Seq<Vec<u8>>, count: nat) -> Seq<int>
    decreases count,
{
    if count == 0 {
        Seq::empty()
    } else {
        let before = parsing(files, (count - 1) as nat);
        if cro::is_module(files[count - 1]@) {
            before.push(count - 1)
        } else {
            before
        }
    }
}

/// every CRO module among files, with its file.
pub fn module_files(files: Vec<Vec<u8>>) -> (modules: Vec<(Module, Vec<u8>)>)
    ensures
        modules@.len() == parsing(files@, files@.len()).len(),
        forall|i: int|
            0 <= i < modules@.len() ==> {
                let file = files@[parsing(files@, files@.len())[i]];
                (#[trigger] modules@[i]).0.describes(file@) && modules@[i].1@ == file@
            },
{
    let mut modules: Vec<(Module, Vec<u8>)> = Vec::new();
    for i in 0..files.len()
        invariant
            modules@.len() == parsing(files@, i as nat).len(),
            forall|j: int|
                0 <= j < modules@.len() ==> {
                    let file = files@[parsing(files@, i as nat)[j]];
                    (#[trigger] modules@[j]).0.describes(file@) && modules@[j].1@ == file@
                },
    {
        let file = files[i].as_slice();
        if let Some(module) = cro::parse(file) {
            modules.push((module, bytes::copied(file)));
        }
    }
    modules
}

/// the file of the main executable's module description, the static.crs
/// every title carries in its RomFS.
pub fn static_file(title: &Title) -> (file: Option<FileEntry>)
    ensures
        match title.romfs {
            Some(romfs) => match romfs.looked_up("static.crs"@) {
                Ok(filed) => file matches Some(found) && found@ == filed,
                Err(_) => file is None,
            },
            None => file is None,
        },
{
    match &title.romfs {
        Some(romfs) => match romfs.lookup("static.crs") {
            Ok(file) => Some(file),
            Err(_) => None,
        },
        None => None,
    }
}

/// the main executable's module description, out of its file.
pub fn static_module(file: &[u8]) -> (module: Option<Module>)
    ensures
        module is Some <==> cro::is_module(file@),
        module matches Some(found) ==> found.describes(file@),
{
    cro::parse(file)
}

} // verus!
