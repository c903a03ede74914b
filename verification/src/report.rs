//! the numbers shown about what was found in a title, and the functions of
//! it to check.

use crate::arm;
use crate::codegen;
use crate::discover;
use crate::discover::{Analysis, Byte, Function, Mode, Source};
use crate::sorted;
use crate::verify;
use crate::verify::count;
use vstd::prelude::*;

verus! {

broadcast use {vstd::laws_cmp::group_laws_cmp, vstd::std_specs::btree::group_btree_axioms};

/// the numbers the report shows for a program, or for several added up.
#[derive(Debug, Clone, Copy, PartialEq, Eq, Structural)]
pub struct Totals {
    pub text: usize,
    pub functions: usize,
    pub code: usize,
    pub literal: usize,
    pub indirect: usize,
    pub switches: usize,
    pub svc: usize,
    pub dead_ends: usize,
}

impl Default for Totals {
    fn default() -> (totals: Totals)
        ensures
            totals == (Totals {
                text: 0,
                functions: 0,
                code: 0,
                literal: 0,
                indirect: 0,
                switches: 0,
                svc: 0,
                dead_ends: 0,
            }),
    {
        Totals {
            text: 0,
            functions: 0,
            code: 0,
            literal: 0,
            indirect: 0,
            switches: 0,
            svc: 0,
            dead_ends: 0,
        }
    }
}

impl Totals {
    /// the numbers are those of an analysis.
    pub open spec fn describes(self, found: discover::Findings) -> bool {
        &&& self.text == found.map.len()
        &&& self.functions == found.functions.dom().len()
        &&& self.code == found.map.to_multiset().count(Byte::Code)
        &&& self.literal == found.map.to_multiset().count(Byte::Literal)
        &&& self.indirect == found.indirect_sites
        &&& self.switches == found.jump_tables
        &&& self.svc == found.svc_sites
        &&& self.dead_ends == found.dead_ends
    }

    /// the two together.
    pub open spec fn plus(self, other: Totals) -> Totals {
        Totals {
            text: verify::counted(self.text, other.text),
            functions: verify::counted(self.functions, other.functions),
            code: verify::counted(self.code, other.code),
            literal: verify::counted(self.literal, other.literal),
            indirect: verify::counted(self.indirect, other.indirect),
            switches: verify::counted(self.switches, other.switches),
            svc: verify::counted(self.svc, other.svc),
            dead_ends: verify::counted(self.dead_ends, other.dead_ends),
        }
    }

    pub fn of(analysis: &Analysis) -> (totals: Totals)
        ensures
            totals.describes(analysis@),
    {
        let entries = sorted::sorted_keys(&analysis.functions);
        proof {
            lemma_listed(entries@, analysis.functions@.dom());
            assert(analysis@.functions.dom() =~= analysis.functions@.dom());
        }
        Totals {
            text: analysis.map.len(),
            functions: entries.len(),
            code: analysis.count(Byte::Code),
            literal: analysis.count(Byte::Literal),
            indirect: analysis.indirect_sites,
            switches: analysis.jump_tables,
            svc: analysis.svc_sites,
            dead_ends: analysis.dead_ends,
        }
    }

    /// this and other added up.
    pub fn add(self, other: Totals) -> (totals: Totals)
        ensures
            totals == self.plus(other),
    {
        Totals {
            text: count(self.text, other.text),
            functions: count(self.functions, other.functions),
            code: count(self.code, other.code),
            literal: count(self.literal, other.literal),
            indirect: count(self.indirect, other.indirect),
            switches: count(self.switches, other.switches),
            svc: count(self.svc, other.svc),
            dead_ends: count(self.dead_ends, other.dead_ends),
        }
    }

    /// the bytes nobody reached.
    pub fn untouched(&self) -> (left: usize)
        ensures
            left == (if self.text < self.code + self.literal {
                0
            } else {
                self.text - self.code - self.literal
            }),
    {
        let reached = count(self.code, self.literal);
        if self.text < reached {
            0
        } else {
            self.text - reached
        }
    }
}

/// a list of the members of a set is as long as the set is big.
pub proof fn lemma_listed(items: Seq<u32>, set: Set<u32>)
    requires
        sorted::lists(items, set),
    ensures
        items.len() == set.len(),
        set.finite(),
{
    discover::lemma_addresses_finite(set);
    assert(items.no_duplicates());
    items.unique_seq_to_set();
    assert(items.to_set() =~= set);
}

/// every byte of a map is code, a literal or unknown.
pub proof fn law_kinds_add_up(map: Seq<Byte>)
    ensures
        map.to_multiset().count(Byte::Code) + map.to_multiset().count(Byte::Literal)
            + map.to_multiset().count(Byte::Unknown) == map.len(),
    decreases map.len(),
{
    if map.len() == 0 {
        map.to_multiset_ensures();
    } else {
        let before = map.drop_last();
        law_kinds_add_up(before);
        before.to_multiset_ensures();
        assert(before.push(map.last()) =~= map);
    }
}

/// functions by how they were found, or by their state.
pub open spec fn among(
    functions: Map<u32, Function>,
    entries: Seq<u32>,
    wanted: spec_fn(Function) -> bool,
    count: nat,
) -> nat
    decreases count,
{
    if count == 0 {
        0
    } else {
        among(functions, entries, wanted, (count - 1) as nat) + if wanted(
            functions[entries[count - 1]],
        ) {
            1nat
        } else {
            0nat
        }
    }
}

/// how many functions are as wanted.
pub open spec fn number_of(
    functions: Map<u32, Function>,
    wanted: spec_fn(Function) -> bool,
) -> nat {
    let entries = sorted::listing(functions.dom());
    among(functions, entries, wanted, entries.len())
}

/// how many functions were found one way.
pub fn count_source(analysis: &Analysis, source: Source) -> (total: usize)
    ensures
        total == number_of(analysis.functions@, |function: Function| function.source == source),
{
    let entries = sorted::sorted_keys(&analysis.functions);
    let ghost functions = analysis.functions@;
    let ghost wanted = |function: Function| function.source == source;
    proof {
        sorted::lemma_listing(entries@, functions.dom());
    }
    let mut total: usize = 0;
    for i in 0..entries.len()
        invariant
            functions == analysis.functions@,
            wanted == (|function: Function| function.source == source),
            sorted::lists(entries@, functions.dom()),
            total == among(functions, entries@, wanted, i as nat),
            total <= i,
    {
        assert(entries@.contains(entries@[i as int]));
        if let Some(function) = analysis.functions.get(&entries[i]) {
            if function.source == source {
                total += 1;
            }
        }
    }
    total
}

/// how many functions are Thumb.
pub fn count_thumb(analysis: &Analysis) -> (total: usize)
    ensures
        total == number_of(analysis.functions@, |function: Function| function.mode == Mode::Thumb),
{
    let entries = sorted::sorted_keys(&analysis.functions);
    let ghost functions = analysis.functions@;
    let ghost wanted = |function: Function| function.mode == Mode::Thumb;
    proof {
        sorted::lemma_listing(entries@, functions.dom());
    }
    let mut total: usize = 0;
    for i in 0..entries.len()
        invariant
            functions == analysis.functions@,
            wanted == (|function: Function| function.mode == Mode::Thumb),
            sorted::lists(entries@, functions.dom()),
            total == among(functions, entries@, wanted, i as nat),
            total <= i,
    {
        assert(entries@.contains(entries@[i as int]));
        if let Some(function) = analysis.functions.get(&entries[i]) {
            if function.mode == Mode::Thumb {
                total += 1;
            }
        }
    }
    total
}

/// the instructions of the first count of entries.
pub open spec fn instructions_of(
    functions: Map<u32, Function>,
    entries: Seq<u32>,
    number: nat,
) -> usize
    decreases number,
{
    if number == 0 {
        0
    } else {
        verify::counted(
            instructions_of(functions, entries, (number - 1) as nat),
            functions[entries[number - 1]].instructions@.len() as usize,
        )
    }
}

/// how many instructions were decoded, shared code once per function.
pub fn count_instructions(analysis: &Analysis) -> (total: usize)
    ensures
        ({
            let entries = sorted::listing(analysis.functions@.dom());
            total == instructions_of(analysis.functions@, entries, entries.len())
        }),
{
    let entries = sorted::sorted_keys(&analysis.functions);
    let ghost functions = analysis.functions@;
    proof {
        sorted::lemma_listing(entries@, functions.dom());
    }
    let mut total: usize = 0;
    for i in 0..entries.len()
        invariant
            functions == analysis.functions@,
            sorted::lists(entries@, functions.dom()),
            total == instructions_of(functions, entries@, i as nat),
    {
        assert(entries@.contains(entries@[i as int]));
        if let Some(function) = analysis.functions.get(&entries[i]) {
            total = count(total, function.instructions.len());
        }
    }
    total
}

/// a run of text nobody reached, as the number of its program, where it
/// starts and how long it is.
#[derive(Debug, Clone, Copy, PartialEq, Eq, Structural)]
pub struct Gap {
    pub program: usize,
    pub start: u32,
    pub length: usize,
}

/// how many of the first count of gaps are at least length long, when the
/// longest come first.
pub open spec fn place_for(gaps: Seq<Gap>, length: usize, count: nat) -> nat
    decreases count,
{
    if count > 0 && gaps[count - 1].length < length {
        place_for(gaps, length, (count - 1) as nat)
    } else {
        count
    }
}

/// the first count of gaps, the longest first and equally long ones as they
/// came.
pub open spec fn ranked(gaps: Seq<Gap>, count: nat) -> Seq<Gap>
    decreases count,
{
    if count == 0 {
        Seq::empty()
    } else {
        let before = ranked(gaps, (count - 1) as nat);
        let gap = gaps[count - 1];
        before.insert(place_for(before, gap.length, before.len()) as int, gap)
    }
}

/// the longest of gaps, up to most of them.
pub fn largest(gaps: &[Gap], most: usize) -> (list: Vec<Gap>)
    ensures
        list@ == (if gaps@.len() <= most {
            ranked(gaps@, gaps@.len())
        } else {
            ranked(gaps@, gaps@.len()).take(most as int)
        }),
{
    let mut list: Vec<Gap> = Vec::new();
    for i in 0..gaps.len()
        invariant
            list@ == ranked(gaps@, i as nat),
            list@.len() == i,
    {
        let gap = gaps[i];
        let mut at = list.len();
        while at > 0 && list[at - 1].length < gap.length
            invariant
                at <= list@.len(),
                place_for(list@, gap.length, list@.len()) == place_for(
                    list@,
                    gap.length,
                    at as nat,
                ),
            decreases at,
        {
            at -= 1;
        }
        list.insert(at, gap);
    }
    if list.len() > most {
        list.truncate(most);
    }
    list
}

proof fn lemma_place_for(gaps: Seq<Gap>, length: usize, count: nat)
    requires
        count <= gaps.len(),
    ensures
        place_for(gaps, length, count) <= count,
        forall|i: int|
            place_for(gaps, length, count) <= i < count ==> (#[trigger] gaps[i]).length < length,
        place_for(gaps, length, count) > 0 ==> gaps[place_for(gaps, length, count) - 1].length
            >= length,
    decreases count,
{
    if count > 0 && gaps[count - 1].length < length {
        lemma_place_for(gaps, length, (count - 1) as nat);
    }
}

/// gaps come out with the longest first, and none is lost or made up.
pub proof fn law_ranked(gaps: Seq<Gap>, count: nat)
    requires
        count <= gaps.len(),
    ensures
        ranked(gaps, count).len() == count,
        forall|i: int, j: int|
            0 <= i < j < count ==> ranked(gaps, count)[i].length >= ranked(gaps, count)[j].length,
        ranked(gaps, count).to_multiset() == gaps.take(count as int).to_multiset(),
    decreases count,
{
    if count == 0 {
        assert(gaps.take(0) =~= Seq::empty());
    } else {
        let before = ranked(gaps, (count - 1) as nat);
        let gap = gaps[count - 1];
        let at = place_for(before, gap.length, before.len());
        law_ranked(gaps, (count - 1) as nat);
        lemma_place_for(before, gap.length, before.len());
        let after = ranked(gaps, count);
        assert(after == before.insert(at as int, gap));
        assert forall|i: int, j: int| 0 <= i < j < count implies after[i].length
            >= after[j].length by {
            if j < at {
            } else if j == at {
                assert(before[i].length >= before[at - 1].length);
            } else if i == at {
                assert(before[j - 1].length < gap.length);
            } else if i < at {
                assert(before[i].length >= before[j - 1].length);
            } else {
                assert(before[i - 1].length >= before[j - 1].length);
            }
        }
        before.to_multiset_ensures();
        vstd::seq_lib::to_multiset_insert(before, at as int, gap);
        gaps.take(count - 1).to_multiset_ensures();
        assert(gaps.take(count as int) =~= gaps.take(count - 1).push(gap));
    }
}

/// the functions that became C, as addresses at base with bit 0 set for
/// Thumb.
pub open spec fn addresses(functions: Map<u32, Function>, base: u32) -> Seq<u32> {
    sorted::listing(codegen::written(functions)).map_values(
        |entry: u32|
            codegen::key_of(
                arm::displaced(base, entry as int),
                functions[entry].mode == Mode::Thumb,
            ),
    )
}

/// every step of items from at on, up to most of them.
pub open spec fn every(items: Seq<u32>, at: nat, step: nat, most: nat) -> Seq<u32>
    decreases most,
{
    if most == 0 || at >= items.len() {
        Seq::empty()
    } else {
        seq![items[at as int]] + every(items, at + step, step, (most - 1) as nat)
    }
}

/// how far apart the functions of a sample are.
pub open spec fn stride(length: nat, most: nat) -> nat {
    let step = length / if most == 0 {
        1
    } else {
        most
    };
    if step == 0 {
        1
    } else {
        step
    }
}

/// the items that are wanted, of the first count.
pub open spec fn only(items: Seq<u32>, wanted: u32, count: nat) -> Seq<u32>
    decreases count,
{
    if count == 0 {
        Seq::empty()
    } else {
        let before = only(items, wanted, (count - 1) as nat);
        if items[count - 1] == wanted {
            before.push(wanted)
        } else {
            before
        }
    }
}

fn function_addresses(analysis: &Analysis, base: u32) -> (list: Vec<u32>)
    ensures
        list@ == addresses(analysis.functions@, base),
{
    let entries = codegen::written_entries(analysis);
    let ghost functions = analysis.functions@;
    let mut list: Vec<u32> = Vec::new();
    for i in 0..entries.len()
        invariant
            functions == analysis.functions@,
            sorted::lists(entries@, codegen::written(functions)),
            list@.len() == i,
            forall|j: int|
                0 <= j < i ==> #[trigger] list@[j] == codegen::key_of(
                    arm::displaced(base, entries@[j] as int),
                    functions[entries@[j]].mode == Mode::Thumb,
                ),
    {
        let entry = entries[i];
        assert(entries@.contains(entry));
        assert(codegen::written(functions).contains(entry));
        if let Some(function) = analysis.functions.get(&entry) {
            let thumb = function.mode == Mode::Thumb;
            list.push(codegen::key(base.wrapping_add(entry), thumb));
        }
    }
    assert(list@ =~= addresses(functions, base));
    list
}

/// up to most of the functions that became C, spread over the program, as
/// addresses at base with bit 0 set for Thumb. with a function to check alone
/// it is that one, if it is there.
pub fn sample(analysis: &Analysis, base: u32, most: usize, alone: Option<u32>) -> (list: Vec<u32>)
    ensures
        ({
            let all = addresses(analysis.functions@, base);
            list@ == (match alone {
                Some(wanted) => only(all, wanted, all.len()),
                None => every(all, 0, stride(all.len(), most as nat), most as nat),
            })
        }),
{
    let all = function_addresses(analysis, base);
    let mut list: Vec<u32> = Vec::new();
    if let Some(wanted) = alone {
        for i in 0..all.len()
            invariant
                list@ == only(all@, wanted, i as nat),
        {
            if all[i] == wanted {
                list.push(wanted);
            }
        }
        return list;
    }
    let step = all.len() / if most == 0 {
        1
    } else {
        most
    };
    let step = if step == 0 {
        1
    } else {
        step
    };
    let mut at: usize = 0;
    let mut left = most;
    let ghost whole = every(all@, 0, step as nat, most as nat);
    assert(list@ + whole =~= whole);
    while left > 0 && at < all.len()
        invariant_except_break
            list@ + every(all@, at as nat, step as nat, left as nat) == whole,
        invariant
            step > 0,
        ensures
            list@ == whole,
        decreases left,
    {
        let ghost before = list@;
        let ghost rest = every(all@, (at + step) as nat, step as nat, (left - 1) as nat);
        list.push(all[at]);
        assert(list@ + rest =~= before + (seq![all@[at as int]] + rest));
        left -= 1;
        if step >= all.len() - at {
            assert(rest =~= Seq::empty());
            assert(list@ + rest =~= list@);
            break;
        }
        at += step;
        proof {
            if !(left > 0 && at < all@.len()) {
                assert(list@ + Seq::empty() =~= list@);
            }
        }
    }
    assert(list@ == whole);
    list
}

/// where the item after i steps from at on is.
pub open spec fn spread(at: nat, step: nat, i: int) -> int {
    at + i * step
}

proof fn lemma_every(items: Seq<u32>, at: nat, step: nat, most: nat, i: int)
    requires
        step > 0,
    ensures
        every(items, at, step, most).len() <= most,
        0 <= i < every(items, at, step, most).len() ==> spread(at, step, i) < items.len() && every(
            items,
            at,
            step,
            most,
        )[i] == items[spread(at, step, i)],
        step == 1 && at + most >= items.len() && at <= items.len() ==> every(
            items,
            at,
            step,
            most,
        ) == items.skip(at as int),
    decreases most,
{
    let list = every(items, at, step, most);
    if most == 0 || at >= items.len() {
        if at <= items.len() && at + most >= items.len() {
            assert(list =~= items.skip(at as int));
        }
    } else {
        let rest = every(items, at + step, step, (most - 1) as nat);
        lemma_every(items, at + step, step, (most - 1) as nat, i - 1);
        if i == 0 {
            assert(at + 0 * step == at) by (nonlinear_arith);
        } else {
            assert(at + step + (i - 1) * step == at + i * step) by (nonlinear_arith);
        }
        assert(list.len() == rest.len() + 1);
        if 0 < i < list.len() {
            assert(list[i] == rest[i - 1]);
        }
        if step == 1 && at + most >= items.len() {
            assert(list =~= items.skip(at as int));
        }
    }
}

/// a sample is never longer than asked for, its functions lie evenly spread
/// over the program, and all of them are in it when there are few enough.
pub proof fn law_sample(items: Seq<u32>, most: nat)
    ensures
        ({
            let step = stride(items.len(), most);
            let list = every(items, 0, step, most);
            &&& list.len() <= most
            &&& forall|i: int|
                0 <= i < list.len() ==> #[trigger] spread(0, step, i) < items.len() && list[i]
                    == items[spread(0, step, i)]
            &&& items.len() <= most ==> list == items
        }),
{
    let step = stride(items.len(), most);
    let list = every(items, 0, step, most);
    lemma_every(items, 0, step, most, 0);
    assert forall|i: int| 0 <= i < list.len() implies #[trigger] spread(0, step, i) < items.len()
        && list[i] == items[spread(0, step, i)] by {
        lemma_every(items, 0, step, most, i);
    }
    if items.len() <= most {
        if most > 0 {
            assert(items.len() / most <= 1) by (nonlinear_arith)
                requires
                    items.len() <= most,
                    most > 0,
            ;
        }
        assert(step == 1);
        assert(items.skip(0) =~= items);
    }
}

} // verus!
