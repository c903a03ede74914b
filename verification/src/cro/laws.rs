//! what a module looks like when it is loaded.

use crate::bytes;
use crate::cro;
use crate::cro::{Module, Relocation};
use vstd::prelude::*;

verus! {

/// the zeros start on the first page past a file of size bytes.
pub open spec fn first_page_past(size: nat, bss: int) -> bool {
    bss % 0x1000 == 0 && size <= bss < size + 0x1000
}

/// where segment number lives when the zeros start at bss. segments of the
/// third kind are zeros, any other is where it is in the file.
pub open spec fn lives_at(module: Module, bss: int, number: int) -> int {
    if module.segments@[number].kind == 3 {
        bss
    } else {
        module.segments@[number].offset as int
    }
}

/// where a relocation goes, its low four bits the segment and the others how
/// far into it.
pub open spec fn goes_at(module: Module, bss: int, relocation: Relocation) -> int {
    (lives_at(module, bss, (relocation.target % 16) as int) + relocation.target / 16)
        % 0x1_0000_0000
}

/// a relocation that stores an address, in a segment that there is.
pub open spec fn stores(module: Module, relocation: Relocation) -> bool {
    (relocation.kind == 2 || relocation.kind == 38) && relocation.target % 16
        < module.segments@.len()
}

/// a relocation does not write to the word at place.
pub open spec fn spares(module: Module, bss: int, relocation: Relocation, place: int) -> bool {
    stores(module, relocation) ==> goes_at(module, bss, relocation) + 4 <= place || place + 4
        <= goes_at(module, bss, relocation)
}

proof fn lemma_tag(tag: u32)
    by (bit_vector)
    ensures
        (tag & 0xF) as int == tag % 16,
        (tag >> 4) as int == tag / 16,
{
}

proof fn lemma_page(size: nat, bss: int)
    requires
        first_page_past(size, bss),
    ensures
        Module::bss_start(size) == bss,
{
    assert(Module::bss_start(size) % 0x1000 == 0);
    assert(size <= Module::bss_start(size) < size + 0x1000);
}

/// one relocation writes its word and nothing else.
proof fn lemma_relocated(
    module: Module,
    size: nat,
    bss: int,
    image: Seq<u8>,
    base: u32,
    relocation: Relocation,
)
    requires
        first_page_past(size, bss),
        bss <= u32::MAX,
    ensures
        ({
            let after = module.relocated(size, image, base, relocation);
            let place = goes_at(module, bss, relocation);
            let value = (base + lives_at(module, bss, relocation.segment as int)
                + relocation.addend) % 0x1_0000_0000;
            &&& after.len() == image.len()
            &&& stores(module, relocation) && relocation.segment < module.segments@.len() && place
                + 4 <= image.len() ==> bytes::le32(after, place) == value
            &&& forall|i: int|
                0 <= i < image.len() && (!stores(module, relocation) || i < place || place + 4
                    <= i) ==> #[trigger] after[i] == image[i]
        }),
{
    lemma_tag(relocation.target);
    lemma_page(size, bss);
    let place = goes_at(module, bss, relocation);
    if place + 4 <= image.len() {
        bytes::law_stored_reads_back(
            image,
            place,
            ((base + lives_at(module, bss, relocation.segment as int) + relocation.addend)
                % 0x1_0000_0000) as u32,
        );
    }
}

/// pointing one import at stub writes its word and nothing else.
proof fn lemma_imported(
    module: Module,
    size: nat,
    bss: int,
    image: Seq<u8>,
    stub: u32,
    import: Relocation,
)
    requires
        first_page_past(size, bss),
        bss <= u32::MAX,
    ensures
        ({
            let after = module.imported(size, image, stub, import);
            let place = goes_at(module, bss, import);
            let value = (stub + import.addend) % 0x1_0000_0000;
            &&& after.len() == image.len()
            &&& stores(module, import) && place + 4 <= image.len() ==> bytes::le32(after, place)
                == value
            &&& forall|i: int|
                0 <= i < image.len() && (!stores(module, import) || i < place || place + 4 <= i)
                    ==> #[trigger] after[i] == image[i]
        }),
{
    lemma_tag(import.target);
    lemma_page(size, bss);
    let place = goes_at(module, bss, import);
    if place + 4 <= image.len() {
        bytes::law_stored_reads_back(
            image,
            place,
            ((stub + import.addend) % 0x1_0000_0000) as u32,
        );
    }
}

/// the relocations from number on leave the byte at place alone.
proof fn lemma_relocations_spare(
    module: Module,
    size: nat,
    bss: int,
    image: Seq<u8>,
    base: u32,
    number: nat,
    count: nat,
    place: int,
)
    requires
        first_page_past(size, bss),
        bss <= u32::MAX,
        number <= count <= module.relocations@.len(),
        0 <= place < image.len(),
        forall|i: int|
            number <= i < count ==> stores(module, #[trigger] module.relocations@[i]) ==> place
                < goes_at(module, bss, module.relocations@[i]) || goes_at(
                module,
                bss,
                module.relocations@[i],
            ) + 4 <= place,
    ensures
        module.all_relocated(size, image, base, count).len() == image.len(),
        module.all_relocated(size, image, base, number).len() == image.len(),
        module.all_relocated(size, image, base, count)[place] == module.all_relocated(
            size,
            image,
            base,
            number,
        )[place],
    decreases count,
{
    if count > number {
        lemma_relocations_spare(module, size, bss, image, base, number, (count - 1) as nat, place);
        lemma_relocated(
            module,
            size,
            bss,
            module.all_relocated(size, image, base, (count - 1) as nat),
            base,
            module.relocations@[count - 1],
        );
    } else if count > 0 {
        cro::lemma_patches_keep_size(module, size, image, base, base, count);
    }
}

proof fn lemma_imports_spare(
    module: Module,
    size: nat,
    bss: int,
    image: Seq<u8>,
    stub: u32,
    number: nat,
    count: nat,
    place: int,
)
    requires
        first_page_past(size, bss),
        bss <= u32::MAX,
        number <= count <= module.imports@.len(),
        0 <= place < image.len(),
        forall|i: int|
            number <= i < count ==> stores(module, #[trigger] module.imports@[i]) ==> place
                < goes_at(module, bss, module.imports@[i]) || goes_at(
                module,
                bss,
                module.imports@[i],
            ) + 4 <= place,
    ensures
        module.all_imported(size, image, stub, count).len() == image.len(),
        module.all_imported(size, image, stub, number).len() == image.len(),
        module.all_imported(size, image, stub, count)[place] == module.all_imported(
            size,
            image,
            stub,
            number,
        )[place],
    decreases count,
{
    if count > number {
        lemma_imports_spare(module, size, bss, image, stub, number, (count - 1) as nat, place);
        lemma_imported(
            module,
            size,
            bss,
            module.all_imported(size, image, stub, (count - 1) as nat),
            stub,
            module.imports@[count - 1],
        );
    } else if count > 0 {
        cro::lemma_patches_keep_size(module, size, image, stub, stub, count);
    }
}

proof fn lemma_segment_in_total(module: Module, count: nat, number: int)
    requires
        0 <= number < count <= module.segments@.len(),
        module.segments@[number].kind == 3,
    ensures
        cro::bss_total(module.segments@, count) >= module.segments@[number].size,
    decreases count,
{
    if number < count - 1 {
        lemma_segment_in_total(module, (count - 1) as nat, number);
    }
}

/// there is room for every segment of zeros on the first page past the file.
pub proof fn law_zeros_have_room(
    module: Module,
    file: Seq<u8>,
    base: u32,
    stub: u32,
    bss: int,
    number: int,
)
    requires
        first_page_past(file.len(), bss),
        0 <= number < module.segments@.len(),
        module.segments@[number].kind == 3,
    ensures
        module.loaded(file, base, stub).len() >= bss + module.segments@[number].size,
{
    cro::law_loaded_size(module, file, base, stub);
    lemma_page(file.len(), bss);
    lemma_segment_in_total(module, module.segments@.len(), number);
}

/// a byte of a loaded module that nothing is written over is the one in the
/// file, and zero past it.
pub proof fn law_the_rest_is_the_file(
    module: Module,
    file: Seq<u8>,
    base: u32,
    stub: u32,
    bss: int,
    place: int,
)
    requires
        first_page_past(file.len(), bss),
        module.loaded_size(file.len()) <= u32::MAX,
        0 <= place < module.loaded(file, base, stub).len(),
        forall|i: int|
            0 <= i < module.relocations@.len() ==> stores(
                module,
                #[trigger] module.relocations@[i],
            ) ==> place < goes_at(module, bss, module.relocations@[i]) || goes_at(
                module,
                bss,
                module.relocations@[i],
            ) + 4 <= place,
        forall|i: int|
            0 <= i < module.imports@.len() ==> stores(module, #[trigger] module.imports@[i])
                ==> place < goes_at(module, bss, module.imports@[i]) || goes_at(
                module,
                bss,
                module.imports@[i],
            ) + 4 <= place,
    ensures
        module.loaded(file, base, stub)[place] == (if place < file.len() {
            file[place]
        } else {
            0
        }),
{
    let size = file.len();
    cro::law_loaded_size(module, file, base, stub);
    lemma_page(size, bss);
    let zeroed = file + Seq::new((module.loaded_size(size) - size) as nat, |i: int| 0u8);
    let relocated = module.all_relocated(size, zeroed, base, module.relocations@.len());
    lemma_relocations_spare(
        module,
        size,
        bss,
        zeroed,
        base,
        0,
        module.relocations@.len(),
        place,
    );
    lemma_imports_spare(module, size, bss, relocated, stub, 0, module.imports@.len(), place);
}

/// the word that the last relocation to its place stores in a loaded module,
/// with no import there, is how far past where the segment that it names lives
/// it points, past base. the segments of zeros live on the first page past the
/// file and any other where it is in the file.
pub proof fn law_relocations_point_into_segments(
    module: Module,
    file: Seq<u8>,
    base: u32,
    stub: u32,
    bss: int,
    number: int,
)
    requires
        first_page_past(file.len(), bss),
        module.loaded_size(file.len()) <= u32::MAX,
        0 <= number < module.relocations@.len(),
        stores(module, module.relocations@[number]),
        module.relocations@[number].segment < module.segments@.len(),
        goes_at(module, bss, module.relocations@[number]) + 4 <= module.loaded(
            file,
            base,
            stub,
        ).len(),
        forall|i: int|
            number < i < module.relocations@.len() ==> spares(
                module,
                bss,
                #[trigger] module.relocations@[i],
                goes_at(module, bss, module.relocations@[number]),
            ),
        forall|i: int|
            0 <= i < module.imports@.len() ==> spares(
                module,
                bss,
                #[trigger] module.imports@[i],
                goes_at(module, bss, module.relocations@[number]),
            ),
    ensures
        ({
            let relocation = module.relocations@[number];
            let segment = module.segments@[relocation.segment as int];
            let word = bytes::le32(
                module.loaded(file, base, stub),
                goes_at(module, bss, relocation),
            );
            &&& word == (base + lives_at(module, bss, relocation.segment as int)
                + relocation.addend) % 0x1_0000_0000
            // a pointer to zeros is past the file and inside the module
            &&& segment.kind == 3 && relocation.addend < segment.size && base + module.loaded(
                file,
                base,
                stub,
            ).len() <= u32::MAX ==> {
                &&& word == base + bss + relocation.addend
                &&& base + file.len() <= word < base + module.loaded(file, base, stub).len()
            }
        }),
{
    let size = file.len();
    let relocation = module.relocations@[number];
    let place = goes_at(module, bss, relocation);
    cro::law_loaded_size(module, file, base, stub);
    lemma_page(size, bss);
    let zeroed = file + Seq::new((module.loaded_size(size) - size) as nat, |i: int| 0u8);
    let count = module.relocations@.len();
    let relocated = module.all_relocated(size, zeroed, base, count);
    let before = module.all_relocated(size, zeroed, base, number as nat);
    let after = module.all_relocated(size, zeroed, base, (number + 1) as nat);
    let loaded = module.loaded(file, base, stub);
    cro::lemma_patches_keep_size(module, size, zeroed, base, stub, number as nat);
    lemma_relocated(module, size, bss, before, base, relocation);
    assert forall|i: int| place <= i < place + 4 implies #[trigger] loaded[i] == after[i] by {
        lemma_relocations_spare(
            module,
            size,
            bss,
            zeroed,
            base,
            (number + 1) as nat,
            count,
            i,
        );
        lemma_imports_spare(module, size, bss, relocated, stub, 0, module.imports@.len(), i);
    }
    assert(loaded[place] == after[place]);
    assert(loaded[place + 1] == after[place + 1]);
    assert(loaded[place + 2] == after[place + 2]);
    assert(loaded[place + 3] == after[place + 3]);
    if module.segments@[relocation.segment as int].kind == 3 {
        law_zeros_have_room(module, file, base, stub, bss, relocation.segment as int);
    }
}

/// the word that the last import to its place stores in a loaded module is its
/// addend past stub.
pub proof fn law_imports_point_at_the_stub(
    module: Module,
    file: Seq<u8>,
    base: u32,
    stub: u32,
    bss: int,
    number: int,
)
    requires
        first_page_past(file.len(), bss),
        module.loaded_size(file.len()) <= u32::MAX,
        0 <= number < module.imports@.len(),
        stores(module, module.imports@[number]),
        goes_at(module, bss, module.imports@[number]) + 4 <= module.loaded(
            file,
            base,
            stub,
        ).len(),
        forall|i: int|
            number < i < module.imports@.len() ==> spares(
                module,
                bss,
                #[trigger] module.imports@[i],
                goes_at(module, bss, module.imports@[number]),
            ),
    ensures
        bytes::le32(
            module.loaded(file, base, stub),
            goes_at(module, bss, module.imports@[number]),
        ) == (stub + module.imports@[number].addend) % 0x1_0000_0000,
{
    let size = file.len();
    let import = module.imports@[number];
    let place = goes_at(module, bss, import);
    cro::law_loaded_size(module, file, base, stub);
    lemma_page(size, bss);
    let zeroed = file + Seq::new((module.loaded_size(size) - size) as nat, |i: int| 0u8);
    let relocated = module.all_relocated(size, zeroed, base, module.relocations@.len());
    cro::lemma_patches_keep_size(module, size, zeroed, base, stub, module.relocations@.len());
    cro::lemma_patches_keep_size(module, size, relocated, base, stub, number as nat);
    let before = module.all_imported(size, relocated, stub, number as nat);
    let after = module.all_imported(size, relocated, stub, (number + 1) as nat);
    let loaded = module.loaded(file, base, stub);
    lemma_imported(module, size, bss, before, stub, import);
    assert forall|i: int| place <= i < place + 4 implies #[trigger] loaded[i] == after[i] by {
        lemma_imports_spare(
            module,
            size,
            bss,
            relocated,
            stub,
            (number + 1) as nat,
            module.imports@.len(),
            i,
        );
    }
    assert(loaded[place] == after[place]);
    assert(loaded[place + 1] == after[place + 1]);
    assert(loaded[place + 2] == after[place + 2]);
    assert(loaded[place + 3] == after[place + 3]);
}

/// a tag with the number of a segment in its low four bits and an offset above
/// them is that far into the segment, as long as that is inside it, and is code
/// where the segment is of the first kind.
pub proof fn law_tags(module: Module, tag: u32)
    ensures
        ({
            let number = (tag % 16) as int;
            let segment = module.segments@[number];
            let inside = number < module.segments@.len() && tag / 16 < segment.size;
            &&& module.place(tag) is Some <==> inside
            &&& inside ==> module.place(tag)->0 == (segment.offset + tag / 16) % 0x1_0000_0000
            &&& module.code_place(tag) == (if number < module.segments@.len() && segment.kind == 0 {
                module.place(tag)
            } else {
                None
            })
        }),
{
    lemma_tag(tag);
}

} // verus!
