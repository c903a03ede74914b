//! what a library of recompiled code holds and how to find code in it, its
//! tables as plain addresses. code itself is named by its place in them.

use crate::arm;
use crate::sorted;
use crate::text;
use vstd::prelude::*;

verus! {

/// the version of the interface recompiled code runs against.
pub const ABI: u32 = 4;

/// the reasons code returns with.
pub const EXIT_NONE: u32 = 0;

pub const EXIT_SVC: u32 = 1;

pub const EXIT_BUDGET: u32 = 2;

pub const EXIT_UNWIND: u32 = 3;

/// a module's code, whose entries are offsets from where it gets loaded.
pub struct Module {
    pub name: String,
    /// where the module's code ends.
    pub size: u32,
    /// the addresses of its entries, bit 0 set for Thumb.
    pub entries: Vec<u32>,
}

/// a module that is loaded.
#[derive(Debug, Clone, Copy, PartialEq, Eq, Structural)]
pub struct Placed {
    pub base: u32,
    pub size: u32,
    /// which of the modules it is.
    pub index: usize,
}

/// where code was found, in the executable or in a module, by its place in
/// the table.
#[derive(Debug, Clone, Copy, PartialEq, Eq, Structural)]
pub struct Found {
    pub module: Option<usize>,
    pub entry: usize,
}

/// a library of recompiled code.
pub struct Library {
    /// the addresses of the executable's entries, bit 0 set for Thumb.
    pub entries: Vec<u32>,
    pub modules: Vec<Module>,
    /// the modules placed somewhere.
    pub placed: Vec<Placed>,
}

/// why a library that speaks version cannot be used.
pub open spec fn version_problem(version: u32) -> Option<Seq<char>> {
    if version == ABI {
        None
    } else {
        Some(
            text::fill(
                "the library speaks version {} of the interface, not {}"@,
                seq![text::dec(version as nat), text::dec(ABI as nat)],
            ),
        )
    }
}

/// refuses a library that speaks another version.
pub fn check_version(version: u32) -> (result: Result<(), String>)
    ensures
        match version_problem(version) {
            None => result is Ok,
            Some(problem) => result matches Err(message) && message@ == problem,
        },
{
    if version == ABI {
        Ok(())
    } else {
        Err(
            text::form2(
                "the library speaks version {} of the interface, not {}",
                text::decimal(version).as_str(),
                text::decimal(ABI).as_str(),
            ),
        )
    }
}

/// no entry is below one before it.
pub open spec fn in_order(entries: Seq<u32>) -> bool {
    forall|i: int, j: int| 0 <= i < j < entries.len() ==> entries[i] <= entries[j]
}

/// place is what looking for address in entries may give. it has to be in
/// there, and when the entries are in order it is not missed.
pub open spec fn finds(entries: Seq<u32>, address: u32, place: Option<usize>) -> bool {
    match place {
        Some(entry) => entry < entries.len() && entries[entry as int] == address,
        None => in_order(entries) ==> !entries.contains(address),
    }
}

/// the place of address in entries.
fn find(entries: &Vec<u32>, address: u32) -> (found: Option<usize>)
    ensures
        finds(entries@, address, found),
{
    let mut low: usize = 0;
    let mut high = entries.len();
    while low < high
        invariant
            low <= high <= entries@.len(),
            in_order(entries@) ==> forall|i: int| 0 <= i < low ==> entries@[i] < address,
            in_order(entries@) ==> forall|i: int|
                high <= i < entries@.len() ==> entries@[i] > address,
        decreases high - low,
    {
        let middle = low + (high - low) / 2;
        if entries[middle] == address {
            return Some(middle);
        }
        if entries[middle] < address {
            low = middle + 1;
        } else {
            high = middle;
        }
    }
    None
}

/// where address is among the entries, if it is.
pub open spec fn place_of(entries: Seq<u32>, address: u32) -> Option<int> {
    if entries.contains(address) {
        Some(entries.index_of(address))
    } else {
        None
    }
}

impl Placed {
    /// address belongs to the module.
    pub open spec fn covers(self, address: u32) -> bool {
        arm::displaced(address, -self.base) < self.size
    }
}

/// the first module from number on that address belongs to.
pub open spec fn covering(placed: Seq<Placed>, address: u32, number: nat) -> Option<Placed>
    decreases placed.len() - number,
{
    if number >= placed.len() {
        None
    } else if placed[number as int].covers(address) {
        Some(placed[number as int])
    } else {
        covering(placed, address, number + 1)
    }
}

/// placed without the module index.
pub open spec fn without(placed: Seq<Placed>, index: usize) -> Seq<Placed>
    decreases placed.len(),
{
    if placed.len() == 0 {
        Seq::empty()
    } else {
        let before = without(placed.drop_last(), index);
        if placed.last().index == index {
            before
        } else {
            before.push(placed.last())
        }
    }
}

/// every module is placed at most once.
pub open spec fn placed_once(placed: Seq<Placed>) -> bool {
    forall|i: int, j: int|
        0 <= i < j < placed.len() ==> (#[trigger] placed[i]).index != (#[trigger] placed[j]).index
}

/// placed after module index of that size was loaded at base, or went away
/// when that is zero.
pub open spec fn placed_again(
    placed: Seq<Placed>,
    index: usize,
    size: u32,
    base: u32,
) -> Seq<Placed> {
    if base == 0 {
        without(placed, index)
    } else {
        without(placed, index).push(Placed { base, size, index })
    }
}

/// where module index was loaded last, if it is.
pub open spec fn base_of(placed: Seq<Placed>, index: usize) -> Option<u32>
    decreases placed.len(),
{
    if placed.len() == 0 {
        None
    } else if placed.last().index == index {
        Some(placed.last().base)
    } else {
        base_of(placed.drop_last(), index)
    }
}

impl Library {
    /// what is placed is among the modules, each of them once and with its size.
    pub open spec fn wf(self) -> bool {
        &&& forall|i: int|
            0 <= i < self.placed@.len() ==> self.describes(#[trigger] self.placed@[i])
        &&& placed_once(self.placed@)
    }

    /// placed is one of the modules, with its size.
    pub open spec fn describes(self, placed: Placed) -> bool {
        placed.index < self.modules@.len() && placed.size == self.modules@[placed.index as int].size
    }

    /// the tables go up, as those of every library that was built do.
    pub open spec fn goes_up(self) -> bool {
        &&& sorted::ascending(self.entries@)
        &&& forall|i: int|
            0 <= i < self.modules@.len() ==> sorted::ascending(
                (#[trigger] self.modules@[i]).entries@,
            )
    }

    /// found is what looking address up may give, in the executable or else in
    /// the first module that is loaded around it.
    pub open spec fn answers(self, address: u32, found: Option<Found>) -> bool {
        let placed = covering(self.placed@, address, 0);
        match found {
            Some(Found { module: None, entry }) => finds(self.entries@, address, Some(entry)),
            Some(Found { module: Some(index), entry }) => {
                &&& finds(self.entries@, address, None)
                &&& placed is Some && placed->0.index == index
                &&& finds(
                    self.modules@[index as int].entries@,
                    arm::displaced(address, -placed->0.base),
                    Some(entry),
                )
            },
            None => {
                &&& finds(self.entries@, address, None)
                &&& placed is Some ==> finds(
                    self.modules@[placed->0.index as int].entries@,
                    arm::displaced(address, -placed->0.base),
                    None,
                )
            },
        }
    }

    /// the code that can run from address, where the tables go up.
    pub open spec fn found(self, address: u32) -> Option<Found> {
        match place_of(self.entries@, address) {
            Some(entry) => Some(Found { module: None, entry: entry as usize }),
            None => match covering(self.placed@, address, 0) {
                None => None,
                Some(placed) => match place_of(
                    self.modules@[placed.index as int].entries@,
                    arm::displaced(address, -placed.base),
                ) {
                    Some(entry) => Some(
                        Found { module: Some(placed.index), entry: entry as usize },
                    ),
                    None => None,
                },
            },
        }
    }

    /// a library with these tables and no module placed.
    pub fn new(entries: Vec<u32>, modules: Vec<Module>) -> (library: Library)
        ensures
            library.wf(),
            library.entries == entries,
            library.modules == modules,
            library.placed@ == Seq::<Placed>::empty(),
    {
        Library { entries, modules, placed: Vec::new() }
    }

    pub fn entries(&self) -> (entries: &[u32])
        ensures
            entries@ == self.entries@,
    {
        self.entries.as_slice()
    }

    pub fn modules(&self) -> (modules: &[Module])
        ensures
            modules@ == self.modules@,
    {
        self.modules.as_slice()
    }

    /// the code that can run from address, bit 0 set for Thumb, in the
    /// executable or in a module that is loaded.
    pub fn lookup(&self, address: u32) -> (found: Option<Found>)
        requires
            self.wf(),
        ensures
            self.answers(address, found),
            self.goes_up() ==> found == self.found(address),
    {
        let found = self.search(address);
        proof {
            if self.goes_up() {
                law_one_answer(*self, address, found);
            }
        }
        found
    }

    fn search(&self, address: u32) -> (found: Option<Found>)
        requires
            self.wf(),
        ensures
            self.answers(address, found),
    {
        if let Some(entry) = find(&self.entries, address) {
            return Some(Found { module: None, entry });
        }
        let mut number: usize = 0;
        while number < self.placed.len()
            invariant
                self.wf(),
                number <= self.placed@.len(),
                finds(self.entries@, address, None),
                covering(self.placed@, address, 0) == covering(
                    self.placed@,
                    address,
                    number as nat,
                ),
            decreases self.placed@.len() - number,
        {
            let placed = self.placed[number];
            let offset = address.wrapping_sub(placed.base);
            assert(offset == arm::displaced(address, -placed.base));
            if offset < placed.size {
                return match find(&self.modules[placed.index].entries, offset) {
                    Some(entry) => Some(Found { module: Some(placed.index), entry }),
                    None => None,
                };
            }
            number += 1;
        }
        None
    }

    /// says where module index was loaded, zero when it goes away.
    pub fn place(&mut self, index: usize, base: u32)
        requires
            old(self).wf(),
            index < old(self).modules@.len(),
        ensures
            final(self).wf(),
            final(self).entries == old(self).entries,
            final(self).modules == old(self).modules,
            final(self).placed@ == placed_again(
                old(self).placed@,
                index,
                old(self).modules@[index as int].size,
                base,
            ),
    {
        let mut kept: Vec<Placed> = Vec::new();
        for i in 0..self.placed.len()
            invariant
                *self == *old(self),
                self.wf(),
                kept@ == without(self.placed@.take(i as int), index),
                forall|j: int| 0 <= j < kept@.len() ==> self.describes(#[trigger] kept@[j]),
        {
            let placed = self.placed[i];
            assert(self.placed@.take(i + 1).drop_last() =~= self.placed@.take(i as int));
            assert(self.placed@.take(i + 1).last() == placed);
            if placed.index != index {
                kept.push(placed);
            }
        }
        assert(self.placed@.take(self.placed@.len() as int) =~= self.placed@);
        proof {
            law_without(self.placed@, index);
        }
        if base != 0 {
            kept.push(Placed { base, size: self.modules[index].size, index });
        }
        self.placed = kept;
    }
}

/// entries that go up have an address at one place.
proof fn lemma_one_place(entries: Seq<u32>, address: u32, place: int)
    requires
        sorted::ascending(entries),
        0 <= place < entries.len(),
        entries[place] == address,
    ensures
        entries.contains(address),
        entries.index_of(address) == place,
{
    let other = entries.index_of(address);
    assert(entries[other] == address);
}

/// looking for address in entries that go up gives its place.
proof fn lemma_one_find(entries: Seq<u32>, address: u32, place: Option<usize>)
    requires
        sorted::ascending(entries),
        finds(entries, address, place),
    ensures
        match place {
            Some(entry) => place_of(entries, address) == Some(entry as int),
            None => place_of(entries, address) is None,
        },
{
    assert(in_order(entries));
    if let Some(entry) = place {
        lemma_one_place(entries, address, entry as int);
    }
}

/// looking an address up in tables that go up has one answer.
pub proof fn law_one_answer(library: Library, address: u32, found: Option<Found>)
    requires
        library.wf(),
        library.goes_up(),
        library.answers(address, found),
    ensures
        found == library.found(address),
{
    let placed = covering(library.placed@, address, 0);
    if placed is Some {
        lemma_covering_is_placed(library.placed@, address, 0);
    }
    match found {
        Some(Found { module: None, entry }) => {
            lemma_one_find(library.entries@, address, Some(entry));
        },
        Some(Found { module: Some(index), entry }) => {
            lemma_one_find(library.entries@, address, None);
            lemma_one_find(
                library.modules@[index as int].entries@,
                arm::displaced(address, -placed->0.base),
                Some(entry),
            );
        },
        None => {
            lemma_one_find(library.entries@, address, None);
            if placed is Some {
                lemma_one_find(
                    library.modules@[placed->0.index as int].entries@,
                    arm::displaced(address, -placed->0.base),
                    None,
                );
            }
        },
    }
}

/// looking up an address with an entry in the executable gives that, where its
/// table goes up.
pub proof fn law_executable_goes_first(library: Library, address: u32)
    requires
        sorted::ascending(library.entries@),
        library.entries@.contains(address),
    ensures
        forall|found: Option<Found>| #[trigger]
            library.answers(address, found) ==> found == library.found(address),
{
    assert forall|found: Option<Found>| #[trigger] library.answers(address, found) implies found
        == library.found(address) by {
        match found {
            Some(Found { module: None, entry }) => {
                lemma_one_find(library.entries@, address, Some(entry));
            },
            _ => {
                lemma_one_find(library.entries@, address, None);
            },
        }
    }
}

proof fn lemma_covering_is_placed(placed: Seq<Placed>, address: u32, start: nat)
    requires
        covering(placed, address, start) is Some,
    ensures
        exists|i: int|
            0 <= i < placed.len() && covering(placed, address, start) == Some(#[trigger] placed[i]),
    decreases placed.len() - start,
{
    if placed[start as int].covers(address) {
        assert(covering(placed, address, start) == Some(placed[start as int]));
    } else {
        lemma_covering_is_placed(placed, address, start + 1);
    }
}

/// a module that goes away is no longer placed, and every other one stays as
/// it is.
pub proof fn law_without(placed: Seq<Placed>, index: usize)
    ensures
        forall|other: Placed| #[trigger]
            without(placed, index).contains(other) <==> placed.contains(other) && other.index
                != index,
        forall|i: int|
            0 <= i < without(placed, index).len() ==> (#[trigger] without(placed, index)[i]).index
                != index,
        placed_once(placed) ==> placed_once(without(placed, index)),
    decreases placed.len(),
{
    if placed.len() > 0 {
        let rest = placed.drop_last();
        law_without(rest, index);
        let before = without(rest, index);
        let after = without(placed, index);
        assert(placed =~= rest.push(placed.last()));
        assert forall|other: Placed| #[trigger] after.contains(other) <==> placed.contains(other)
            && other.index != index by {
            if after.contains(other) {
                let i = after.index_of(other);
                if i < before.len() {
                    assert(before[i] == other);
                    assert(before.contains(other));
                    let j = rest.index_of(other);
                    assert(placed[j] == other);
                } else {
                    assert(placed[placed.len() - 1] == other);
                }
            }
            if placed.contains(other) && other.index != index {
                let i = placed.index_of(other);
                if i < rest.len() {
                    assert(rest[i] == other);
                    assert(before.contains(other));
                    let j = before.index_of(other);
                    assert(after[j] == other);
                } else {
                    assert(after[before.len() as int] == other);
                }
            }
        }
        assert forall|i: int| 0 <= i < after.len() implies (#[trigger] after[i]).index != index by {
            if i < before.len() {
                assert(after[i] == before[i]);
            }
        }
        if placed_once(placed) {
            assert(placed_once(rest));
            assert forall|i: int, j: int| 0 <= i < j < after.len() implies (
            #[trigger] after[i]).index != (#[trigger] after[j]).index by {
                assert(after[i] == before[i]);
                if j < before.len() {
                    assert(after[j] == before[j]);
                } else {
                    assert(before.contains(before[i]));
                    let k = rest.index_of(before[i]);
                    assert(placed[k] == before[i]);
                    assert(placed[placed.len() - 1] == after[j]);
                }
            }
        }
    }
}

proof fn lemma_base_without(placed: Seq<Placed>, index: usize, other: usize)
    ensures
        base_of(without(placed, index), other) == (if other == index {
            None
        } else {
            base_of(placed, other)
        }),
    decreases placed.len(),
{
    if placed.len() > 0 {
        lemma_base_without(placed.drop_last(), index, other);
        let before = without(placed.drop_last(), index);
        assert(before.push(placed.last()).drop_last() =~= before);
    }
}

/// a module is where it was loaded last, nowhere when it went away, and
/// placing one moves no other.
pub proof fn law_placing(
    placed: Seq<Placed>,
    index: usize,
    size: u32,
    base: u32,
    other: usize,
)
    ensures
        base_of(placed_again(placed, index, size, base), other) == (if other != index {
            base_of(placed, other)
        } else if base == 0 {
            None
        } else {
            Some(base)
        }),
{
    lemma_base_without(placed, index, other);
    let kept = without(placed, index);
    assert(kept.push(Placed { base, size, index }).drop_last() =~= kept);
}

/// no address belongs to two of the modules that are placed.
pub open spec fn apart(placed: Seq<Placed>) -> bool {
    forall|i: int, j: int, address: u32|
        0 <= i < j < placed.len() && #[trigger] placed[i].covers(address)
            ==> !#[trigger] placed[j].covers(address)
}

/// the place of module index among placed.
proof fn lemma_place_of_base(placed: Seq<Placed>, index: usize) -> (number: int)
    requires
        base_of(placed, index) is Some,
    ensures
        0 <= number < placed.len(),
        placed[number].index == index,
        placed[number].base == base_of(placed, index)->0,
    decreases placed.len(),
{
    if placed.last().index == index {
        placed.len() - 1
    } else {
        lemma_place_of_base(placed.drop_last(), index)
    }
}

/// where address is found in module index when it is loaded at base.
pub open spec fn found_in(library: Library, index: usize, base: u32, address: u32) -> Option<
    Found,
> {
    match place_of(
        library.modules@[index as int].entries@,
        arm::displaced(address, -base),
    ) {
        Some(entry) => Some(Found { module: Some(index), entry: entry as usize }),
        None => None,
    }
}

/// in tables that go up, an address with an entry in the executable is found
/// there. any other that is less than the size of a module past where that is
/// loaded is looked for in the module, and one that belongs to no module is not
/// found.
pub proof fn law_lookup(library: Library, address: u32)
    requires
        library.wf(),
        apart(library.placed@),
    ensures
        place_of(library.entries@, address) matches Some(entry) ==> library.found(address) == Some(
            Found { module: None, entry: entry as usize },
        ),
        forall|index: usize|
            place_of(library.entries@, address) is None ==> (#[trigger] base_of(
                library.placed@,
                index,
            ) matches Some(base) ==> arm::displaced(address, -base)
                < library.modules@[index as int].size ==> library.found(address) == found_in(
                library,
                index,
                base,
                address,
            )),
        place_of(library.entries@, address) is None && (forall|index: usize|
            (#[trigger] base_of(library.placed@, index) matches Some(base) ==> arm::displaced(
                address,
                -base,
            ) >= library.modules@[index as int].size)) ==> library.found(address) is None,
{
    let placed = library.placed@;
    assert forall|index: usize| place_of(library.entries@, address) is None implies (
    #[trigger] base_of(placed, index) matches Some(base) ==> arm::displaced(address, -base)
        < library.modules@[index as int].size ==> library.found(address) == found_in(
        library,
        index,
        base,
        address,
    )) by {
        if let Some(base) = base_of(placed, index) {
            if arm::displaced(address, -base) < library.modules@[index as int].size {
                let number = lemma_place_of_base(placed, index);
                assert(library.describes(placed[number]));
                assert(placed[number].covers(address));
                assert forall|i: int| 0 <= i < number implies !(#[trigger] placed[i]).covers(
                    address,
                ) by {}
                lemma_covering(placed, address, 0, number as nat);
            }
        }
    }
    if place_of(library.entries@, address) is None && (forall|index: usize|
        (#[trigger] base_of(placed, index) matches Some(base) ==> arm::displaced(address, -base)
            >= library.modules@[index as int].size)) {
        assert forall|i: int| 0 <= i < placed.len() implies !(#[trigger] placed[i]).covers(
            address,
        ) by {
            lemma_base_of_place(placed, i);
            assert(library.describes(placed[i]));
        }
        lemma_not_covering(placed, address, 0);
    }
}

/// a module that is placed once is where it is placed.
proof fn lemma_base_of_place(placed: Seq<Placed>, number: int)
    requires
        placed_once(placed),
        0 <= number < placed.len(),
    ensures
        base_of(placed, placed[number].index) == Some(placed[number].base),
    decreases placed.len(),
{
    if number < placed.len() - 1 {
        assert(placed_once(placed.drop_last()));
        assert(placed[number].index != placed[placed.len() - 1].index);
        lemma_base_of_place(placed.drop_last(), number);
    }
}

proof fn lemma_not_covering(placed: Seq<Placed>, address: u32, start: nat)
    requires
        forall|i: int| start <= i < placed.len() ==> !(#[trigger] placed[i]).covers(address),
    ensures
        covering(placed, address, start) is None,
    decreases placed.len() - start,
{
    if start < placed.len() {
        assert(!placed[start as int].covers(address));
        lemma_not_covering(placed, address, start + 1);
    }
}

/// the address of an entry of a module that is placed.
pub open spec fn loaded_at(library: Library, number: int, entry: int) -> u32 {
    let placed = library.placed@[number];
    arm::displaced(placed.base, library.modules@[placed.index as int].entries@[entry] as int)
}

/// the code of a module is found at its entries past where it was loaded,
/// unless the executable or a module placed before it has that address.
pub proof fn law_placed_code_is_found(library: Library, number: int, entry: int)
    requires
        library.wf(),
        sorted::ascending(library.modules@[library.placed@[number].index as int].entries@),
        0 <= number < library.placed@.len(),
        ({
            let placed = library.placed@[number];
            let entries = library.modules@[placed.index as int].entries@;
            0 <= entry < entries.len() && entries[entry] < placed.size
        }),
        !library.entries@.contains(loaded_at(library, number, entry)),
        forall|i: int|
            0 <= i < number ==> !(#[trigger] library.placed@[i]).covers(
                loaded_at(library, number, entry),
            ),
    ensures
        library.found(loaded_at(library, number, entry)) == Some(
            Found { module: Some(library.placed@[number].index), entry: entry as usize },
        ),
        forall|found: Option<Found>| #[trigger]
            library.answers(loaded_at(library, number, entry), found) ==> found == Some(
                Found { module: Some(library.placed@[number].index), entry: entry as usize },
            ),
{
    let placed = library.placed@[number];
    let entries = library.modules@[placed.index as int].entries@;
    let address = loaded_at(library, number, entry);
    assert(arm::displaced(address, -placed.base) == entries[entry]);
    lemma_covering(library.placed@, address, 0, number as nat);
    lemma_one_place(entries, entries[entry], entry);
    assert forall|found: Option<Found>| #[trigger] library.answers(address, found) implies found
        == Some(Found { module: Some(placed.index), entry: entry as usize }) by {
        match found {
            Some(Found { module, entry: place }) => {
                if module is Some {
                    lemma_one_find(entries, entries[entry], Some(place));
                }
            },
            None => {
                lemma_one_find(entries, entries[entry], None);
            },
        }
    }
}

proof fn lemma_covering(placed: Seq<Placed>, address: u32, start: nat, number: nat)
    requires
        start <= number < placed.len(),
        placed[number as int].covers(address),
        forall|i: int| start <= i < number ==> !(#[trigger] placed[i]).covers(address),
    ensures
        covering(placed, address, start) == Some(placed[number as int]),
    decreases number - start,
{
    if start < number {
        assert(!placed[start as int].covers(address));
        lemma_covering(placed, address, start + 1, number);
    }
}

} // verus!
