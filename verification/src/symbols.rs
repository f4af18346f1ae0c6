//! Names for program counters: the ranges of the functions in the text
//! section, each with its demangled name, and the search for the range that
//! holds a program counter.

use crate::elf::{symbol_views, ElfSymbol, ElfSymbolView};
use vstd::prelude::*;
use vstd::seq_lib::{to_multiset_build, to_multiset_insert};

verus! {

/// The length of `::h` followed by sixteen hexadecimal digits.
pub const HASH_SUFFIX_LEN: usize = 19;

/// What `rustc_demangle` makes of a symbol name.
pub uninterp spec fn demangled(name: Seq<char>) -> Seq<char>;

/// Calls `rustc_demangle::demangle` and renders the result with `to_string`.
/// Trusted: the text is what `demangled` names, that is, it depends on the
/// symbol name alone.
#[verifier::external_body]
fn demangle(name: &str) -> (text: String)
    ensures
        text@ == demangled(name@),
{
    rustc_demangle::demangle(name).to_string()
}

/// Whether `c` is one of `0`-`9`, `a`-`f`, `A`-`F`.
pub open spec fn is_hex_digit(c: char) -> bool {
    ('0' <= c && c <= '9') || ('a' <= c && c <= 'f') || ('A' <= c && c <= 'F')
}

/// Whether `tail` is `::h` followed by sixteen hexadecimal digits.
pub open spec fn is_hash_suffix(tail: Seq<char>) -> bool {
    &&& tail.len() == HASH_SUFFIX_LEN
    &&& tail[0] == ':'
    &&& tail[1] == ':'
    &&& tail[2] == 'h'
    &&& forall|i: int| 3 <= i < HASH_SUFFIX_LEN ==> is_hex_digit(#[trigger] tail[i])
}

/// Whether `name` ends in a hash suffix.
pub open spec fn ends_in_hash(name: Seq<char>) -> bool {
    name.len() >= HASH_SUFFIX_LEN && is_hash_suffix(
        name.subrange(name.len() - HASH_SUFFIX_LEN, name.len() as int),
    )
}

/// `name` without its hash suffix, where it ends in one; `name` otherwise.
pub open spec fn strip_hash(name: Seq<char>) -> Seq<char> {
    if ends_in_hash(name) {
        name.subrange(0, name.len() - HASH_SUFFIX_LEN)
    } else {
        name
    }
}

fn hex_digit(c: char) -> (hex: bool)
    ensures
        hex == is_hex_digit(c),
{
    ('0' <= c && c <= '9') || ('a' <= c && c <= 'f') || ('A' <= c && c <= 'F')
}

/// Removes the compiler's hash from the end of a demangled name.
pub fn strip_hash_suffix(name: String) -> (stripped: String)
    ensures
        stripped@ == strip_hash(name@),
{
    let text = name.as_str();
    let len = text.unicode_len();
    if len < HASH_SUFFIX_LEN {
        return name;
    }
    let at: usize = len - HASH_SUFFIX_LEN;
    let ghost tail = name@.subrange(at as int, len as int);
    if text.get_char(at) != ':' || text.get_char(at + 1) != ':' || text.get_char(at + 2) != 'h' {
        assert(tail[0] == name@[at as int] && tail[1] == name@[at + 1] && tail[2] == name@[at + 2]);
        return name;
    }
    let mut i: usize = 3;
    while i < HASH_SUFFIX_LEN
        invariant
            3 <= i <= HASH_SUFFIX_LEN,
            text@ == name@,
            len == name@.len(),
            at + HASH_SUFFIX_LEN == len,
            tail == name@.subrange(at as int, len as int),
            forall|k: int| 3 <= k < i ==> is_hex_digit(#[trigger] tail[k]),
        decreases HASH_SUFFIX_LEN - i,
    {
        if !hex_digit(text.get_char(at + i)) {
            assert(tail[i as int] == name@[at + i]);
            return name;
        }
        assert(tail[i as int] == name@[at + i]);
        i += 1;
    }
    assert(tail[0] == name@[at as int] && tail[1] == name@[at + 1] && tail[2] == name@[at + 2]);
    text.substring_char(0, at).to_owned()
}

/// Stripping undoes the adding of a hash suffix, whatever the name;
/// so a name that was stripped, given a hash again and stripped
/// again is the name that was stripped once.
pub proof fn law_strip_undoes_suffix(name: Seq<char>, suffix: Seq<char>)
    requires
        is_hash_suffix(suffix),
    ensures
        strip_hash(name + suffix) == name,
        strip_hash(strip_hash(name) + suffix) == strip_hash(name),
{
    lemma_strip_appended(name, suffix);
    lemma_strip_appended(strip_hash(name), suffix);
}

proof fn lemma_strip_appended(name: Seq<char>, suffix: Seq<char>)
    requires
        is_hash_suffix(suffix),
    ensures
        strip_hash(name + suffix) == name,
{
    let whole = name + suffix;
    assert(whole.subrange(whole.len() - HASH_SUFFIX_LEN, whole.len() as int) =~= suffix);
    assert(whole.subrange(0, whole.len() - HASH_SUFFIX_LEN) =~= name);
}

/// A function's range of program counters, `start` up to but not including
/// `start + size`, with the function's name.
#[derive(Debug, PartialEq, Eq)]
pub struct SymbolRange {
    pub start: u32,
    pub size: u32,
    pub name: String,
}

/// The mathematical content of a [`SymbolRange`].
pub struct SymbolRangeView {
    pub start: u32,
    pub size: u32,
    pub name: Seq<char>,
}

impl View for SymbolRange {
    type V = SymbolRangeView;

    open spec fn view(&self) -> SymbolRangeView {
        SymbolRangeView { start: self.start, size: self.size, name: self.name@ }
    }
}

/// Whether `pc` lies in the range: at or after its start, before its end.
pub open spec fn covers(range: SymbolRangeView, pc: u32) -> bool {
    range.start <= pc < range.start + range.size
}

impl SymbolRange {
    /// Whether `pc` lies in this range.
    pub fn contains(&self, pc: u32) -> (inside: bool)
        ensures
            inside == covers(self@, pc),
    {
        pc >= self.start && pc - self.start < self.size
    }
}

/// The views of a list of ranges, one for one.
pub open spec fn range_views(ranges: Seq<SymbolRange>) -> Seq<SymbolRangeView> {
    Seq::new(ranges.len(), |i: int| ranges[i]@)
}

/// What holds of every range of a table: it starts at an even address, is
/// not empty, and ends within the 32-bit address space.
pub open spec fn well_formed(range: SymbolRangeView) -> bool {
    &&& range.start & 1 == 0
    &&& range.size != 0
    &&& range.start + range.size <= u32::MAX
}

/// Whether the ranges stand in ascending order of their starts.
pub open spec fn sorted_by_start(ranges: Seq<SymbolRangeView>) -> bool {
    forall|i: int, j: int|
        0 <= i <= j < ranges.len() ==> (#[trigger] ranges[i]).start <= (#[trigger] ranges[j]).start
}

/// Whether no range reaches into a later one.
pub open spec fn disjoint(ranges: Seq<SymbolRangeView>) -> bool {
    forall|i: int, j: int|
        0 <= i < j < ranges.len() ==> (#[trigger] ranges[i]).start + ranges[i].size <= (
        #[trigger] ranges[j]).start
}

/// The name of the symbol that holds the address of the tracing control block.
pub open spec fn tracing_symbol() -> Seq<char> {
    "_SEGGER_RTT"@
}

/// The start of a symbol's range: its value with the Thumb bit cleared.
pub open spec fn range_start(symbol: ElfSymbolView) -> u32 {
    symbol.value & !1u32
}

/// Whether a symbol gives a range to the table: it has a name other than
/// the tracing symbol's, belongs to the text section, is not empty, and ends
/// within the 32-bit address space.
pub open spec fn names_function(symbol: ElfSymbolView, text: Option<u16>) -> bool {
    &&& symbol.name is Some
    &&& symbol.name != Some(tracing_symbol())
    &&& text == Some(symbol.shndx)
    &&& symbol.size != 0
    &&& range_start(symbol) + symbol.size <= u32::MAX
}

/// The range that a symbol gives: its name is demangled and stripped of its
/// hash.
pub open spec fn symbol_range(symbol: ElfSymbolView) -> SymbolRangeView {
    SymbolRangeView {
        start: range_start(symbol),
        size: symbol.size,
        name: strip_hash(demangled(symbol.name->0)),
    }
}

/// The ranges of the symbols that name functions, in the symbols' order.
pub open spec fn function_ranges(symbols: Seq<ElfSymbolView>, text: Option<u16>) -> Seq<
    SymbolRangeView,
>
    decreases symbols.len(),
{
    if symbols.len() == 0 {
        Seq::empty()
    } else {
        let earlier = function_ranges(symbols.drop_last(), text);
        if names_function(symbols.last(), text) {
            earlier.push(symbol_range(symbols.last()))
        } else {
            earlier
        }
    }
}

/// The value of the last symbol that bears the tracing symbol's name.
pub open spec fn tracing_address(symbols: Seq<ElfSymbolView>) -> Option<u32>
    decreases symbols.len(),
{
    if symbols.len() == 0 {
        None
    } else if symbols.last().name == Some(tracing_symbol()) {
        Some(symbols.last().value)
    } else {
        tracing_address(symbols.drop_last())
    }
}

/// Where a range that starts at `start` goes into a sorted table: behind
/// every range that starts no later.
pub open spec fn slot_of(ranges: Seq<SymbolRangeView>, start: u32) -> int
    decreases ranges.len(),
{
    if ranges.len() == 0 {
        0
    } else if ranges.last().start <= start {
        ranges.len() as int
    } else {
        slot_of(ranges.drop_last(), start)
    }
}

/// The ranges in ascending order of their starts. Ranges with the same
/// start keep their order.
pub open spec fn sorted_table(ranges: Seq<SymbolRangeView>) -> Seq<SymbolRangeView>
    decreases ranges.len(),
{
    if ranges.len() == 0 {
        Seq::empty()
    } else {
        let earlier = sorted_table(ranges.drop_last());
        earlier.insert(slot_of(earlier, ranges.last().start), ranges.last())
    }
}

/// In a sorted table the slot for `start` parts the ranges that start no
/// later from those that start later.
proof fn lemma_slot_parts_table(ranges: Seq<SymbolRangeView>, start: u32)
    requires
        sorted_by_start(ranges),
    ensures
        0 <= slot_of(ranges, start) <= ranges.len(),
        forall|i: int| 0 <= i < slot_of(ranges, start) ==> (#[trigger] ranges[i]).start <= start,
        forall|i: int|
            slot_of(ranges, start) <= i < ranges.len() ==> start < (#[trigger] ranges[i]).start,
    decreases ranges.len(),
{
    if ranges.len() > 0 {
        let last = ranges.len() - 1;
        let shorter = ranges.drop_last();
        assert forall|i: int, j: int| 0 <= i <= j < shorter.len() implies (
        #[trigger] shorter[i]).start <= (#[trigger] shorter[j]).start by {
            assert(ranges[i].start <= ranges[j].start);
        }
        lemma_slot_parts_table(shorter, start);
        if ranges.last().start <= start {
            assert forall|i: int| 0 <= i < ranges.len() implies (#[trigger] ranges[i]).start
                <= start by {
                assert(ranges[i].start <= ranges[last].start);
            }
        } else {
            assert forall|i: int| slot_of(ranges, start) <= i < ranges.len() implies start < (
            #[trigger] ranges[i]).start by {
                if i < last {
                    assert(start < shorter[i].start);
                }
            }
            assert forall|i: int| 0 <= i < slot_of(ranges, start) implies (
            #[trigger] ranges[i]).start <= start by {
                assert(shorter[i].start <= start);
            }
        }
    }
}

/// An index that parts the ranges that start no later than `start` from
/// those that start later is the slot for `start`.
proof fn lemma_slot_is_the_parting_index(ranges: Seq<SymbolRangeView>, start: u32, at: int)
    requires
        0 <= at <= ranges.len(),
        forall|i: int| 0 <= i < at ==> (#[trigger] ranges[i]).start <= start,
        forall|i: int| at <= i < ranges.len() ==> start < (#[trigger] ranges[i]).start,
    ensures
        at == slot_of(ranges, start),
    decreases ranges.len(),
{
    if ranges.len() > 0 {
        let last = ranges.len() - 1;
        let shorter = ranges.drop_last();
        if ranges.last().start <= start {
            if at < ranges.len() {
                assert(start < ranges[last].start);
            }
        } else {
            if at == ranges.len() {
                assert(ranges[last].start <= start);
            }
            assert forall|i: int| 0 <= i < at implies (#[trigger] shorter[i]).start <= start by {
                assert(ranges[i].start <= start);
            }
            assert forall|i: int| at <= i < shorter.len() implies start < (
            #[trigger] shorter[i]).start by {
                assert(start < ranges[i].start);
            }
            lemma_slot_is_the_parting_index(shorter, start, at);
        }
    }
}

/// A range put into a sorted table at its slot leaves the table sorted.
proof fn lemma_insert_keeps_sorted(ranges: Seq<SymbolRangeView>, range: SymbolRangeView)
    requires
        sorted_by_start(ranges),
    ensures
        sorted_by_start(ranges.insert(slot_of(ranges, range.start), range)),
{
    lemma_slot_parts_table(ranges, range.start);
    let at = slot_of(ranges, range.start);
    let after = ranges.insert(at, range);
    assert forall|i: int, j: int| 0 <= i <= j < after.len() implies (#[trigger] after[i]).start <= (
    #[trigger] after[j]).start by {
        let a = if i < at {
            i
        } else {
            i - 1
        };
        let b = if j < at {
            j
        } else {
            j - 1
        };
        if i != at && j != at {
            assert(ranges[a].start <= ranges[b].start);
        } else if i == at && j != at {
            assert(range.start < ranges[b].start);
        } else if j == at && i != at {
            assert(ranges[a].start <= range.start);
        }
    }
}

/// The sorted table holds the same ranges, each as often as it was given,
/// in ascending order of their starts.
pub proof fn law_table_is_sorted_rearrangement(ranges: Seq<SymbolRangeView>)
    ensures
        sorted_by_start(sorted_table(ranges)),
        sorted_table(ranges).to_multiset() == ranges.to_multiset(),
        sorted_table(ranges).len() == ranges.len(),
        (forall|i: int| 0 <= i < ranges.len() ==> well_formed(#[trigger] ranges[i])) ==> (forall|
            i: int,
        | 0 <= i < ranges.len() ==> well_formed(#[trigger] sorted_table(ranges)[i])),
    decreases ranges.len(),
{
    if ranges.len() == 0 {
        assert(ranges =~= Seq::empty());
    } else {
        let shorter = ranges.drop_last();
        let range = ranges.last();
        let earlier = sorted_table(shorter);
        law_table_is_sorted_rearrangement(shorter);
        lemma_slot_parts_table(earlier, range.start);
        lemma_insert_keeps_sorted(earlier, range);
        let at = slot_of(earlier, range.start);
        assert(shorter.push(range) =~= ranges);
        assert(sorted_table(ranges).to_multiset() == ranges.to_multiset()) by {
            to_multiset_insert(earlier, at, range);
            to_multiset_build(shorter, range);
            assert(sorted_table(ranges) == earlier.insert(at, range));
            assert(earlier.insert(at, range).to_multiset() == earlier.to_multiset().insert(range));
            assert(shorter.push(range).to_multiset() == shorter.to_multiset().insert(range));
        }
        if forall|i: int| 0 <= i < ranges.len() ==> well_formed(#[trigger] ranges[i]) {
            assert forall|i: int| 0 <= i < shorter.len() implies well_formed(
                #[trigger] shorter[i],
            ) by {
                assert(well_formed(ranges[i]));
            }
            assert forall|i: int| 0 <= i < ranges.len() implies well_formed(
                #[trigger] sorted_table(ranges)[i],
            ) by {
                if i != at {
                    let a = if i < at {
                        i
                    } else {
                        i - 1
                    };
                    assert(well_formed(earlier[a]));
                } else {
                    assert(well_formed(ranges[ranges.len() - 1]));
                }
            }
        }
    }
}

/// Every range that a symbol gives is well formed.
pub proof fn law_function_ranges_are_well_formed(symbols: Seq<ElfSymbolView>, text: Option<u16>)
    ensures
        forall|i: int|
            0 <= i < function_ranges(symbols, text).len() ==> well_formed(
                #[trigger] function_ranges(symbols, text)[i],
            ),
    decreases symbols.len(),
{
    if symbols.len() > 0 {
        law_function_ranges_are_well_formed(symbols.drop_last(), text);
        let earlier = function_ranges(symbols.drop_last(), text);
        let value = symbols.last().value;
        assert((value & !1u32) & 1 == 0) by (bit_vector);
        assert forall|i: int| 0 <= i < function_ranges(symbols, text).len() implies well_formed(
            #[trigger] function_ranges(symbols, text)[i],
        ) by {
            if i < earlier.len() {
                assert(well_formed(earlier[i]));
            }
        }
    }
}

/// A symbol without size names no function: it gives no range, and the
/// ranges of a list of symbols are the same with it as without it.
pub proof fn law_empty_symbol_gives_no_range(
    symbols: Seq<ElfSymbolView>,
    symbol: ElfSymbolView,
    text: Option<u16>,
)
    requires
        symbol.size == 0,
    ensures
        !names_function(symbol, text),
        function_ranges(symbols.push(symbol), text) == function_ranges(symbols, text),
{
    assert(symbols.push(symbol).drop_last() =~= symbols);
}

/// A range holds its start and does not hold its end.
pub proof fn law_range_is_half_open(range: SymbolRangeView)
    requires
        well_formed(range),
    ensures
        covers(range, range.start),
        !covers(range, (range.start + range.size) as u32),
{
}

/// The table of function ranges, in ascending order of their starts.
#[derive(Debug)]
pub struct RangeNames {
    ranges: Vec<SymbolRange>,
}

impl View for RangeNames {
    type V = Seq<SymbolRangeView>;

    closed spec fn view(&self) -> Seq<SymbolRangeView> {
        range_views(self.ranges@)
    }
}

/// The index that bisection between `low` and `high` arrives at: at each
/// step the middle range is the answer if it covers `pc`, else the search
/// goes on below it if `pc` lies before its start and above it otherwise.
pub closed spec fn bisect(ranges: Seq<SymbolRangeView>, pc: u32, low: int, high: int) -> Option<
    int,
>
    decreases high - low,
{
    if low >= high {
        None
    } else {
        let mid = low + (high - low) / 2;
        if covers(ranges[mid], pc) {
            Some(mid)
        } else if pc < ranges[mid].start {
            bisect(ranges, pc, low, mid)
        } else {
            bisect(ranges, pc, mid + 1, high)
        }
    }
}

/// The index of the range that the table's search finds for `pc`.
pub open spec fn index_of(ranges: Seq<SymbolRangeView>, pc: u32) -> Option<int> {
    bisect(ranges, pc, 0, ranges.len() as int)
}

/// What bisection finds covers `pc`; where it finds nothing in a sorted
/// table without overlap, no range between `low` and `high` covers `pc`.
proof fn lemma_bisect(ranges: Seq<SymbolRangeView>, pc: u32, low: int, high: int)
    requires
        0 <= low <= high <= ranges.len(),
    ensures
        bisect(ranges, pc, low, high) matches Some(i) ==> low <= i < high && covers(ranges[i], pc),
        bisect(ranges, pc, low, high) is None && sorted_by_start(ranges) && disjoint(ranges)
            ==> forall|i: int| low <= i < high ==> !covers(#[trigger] ranges[i], pc),
    decreases high - low,
{
    if low < high {
        let mid = low + (high - low) / 2;
        if covers(ranges[mid], pc) {
        } else if pc < ranges[mid].start {
            lemma_bisect(ranges, pc, low, mid);
            if sorted_by_start(ranges) {
                assert forall|i: int| mid <= i < high implies !covers(#[trigger] ranges[i], pc) by {
                    assert(ranges[mid].start <= ranges[i].start);
                }
            }
        } else {
            lemma_bisect(ranges, pc, mid + 1, high);
            if disjoint(ranges) {
                assert forall|i: int| low <= i <= mid implies !covers(#[trigger] ranges[i], pc) by {
                    if i < mid {
                        assert(ranges[i].start + ranges[i].size <= ranges[mid].start);
                    }
                }
            }
        }
    }
}

/// The search finds only a range that covers `pc`, and in a sorted table
/// without overlap it finds one whenever one exists.
pub proof fn law_search_finds_covering_range(ranges: Seq<SymbolRangeView>, pc: u32)
    ensures
        index_of(ranges, pc) matches Some(i) ==> 0 <= i < ranges.len() && covers(ranges[i], pc),
        index_of(ranges, pc) is None && sorted_by_start(ranges) && disjoint(ranges)
            ==> forall|i: int| 0 <= i < ranges.len() ==> !covers(#[trigger] ranges[i], pc),
{
    lemma_bisect(ranges, pc, 0, ranges.len() as int);
}

impl RangeNames {
    /// What holds of every table: its ranges are well formed and sorted.
    pub open spec fn wf(&self) -> bool {
        &&& sorted_by_start(self@)
        &&& forall|i: int| 0 <= i < self@.len() ==> well_formed(#[trigger] self@[i])
    }

    /// The number of ranges.
    pub fn len(&self) -> (count: usize)
        ensures
            count == self@.len(),
    {
        self.ranges.len()
    }

    /// The range at `index`.
    pub fn range(&self, index: usize) -> (range: &SymbolRange)
        requires
            index < self@.len(),
        ensures
            range@ == self@[index as int],
    {
        &self.ranges[index]
    }

    /// Searches the table for a range that covers `pc`.
    pub fn find(&self, pc: u32) -> (found: Option<usize>)
        ensures
            found matches Some(i) ==> index_of(self@, pc) == Some(i as int),
            found is None ==> index_of(self@, pc) is None,
            found matches Some(i) ==> i < self@.len() && covers(self@[i as int], pc),
            found is None && sorted_by_start(self@) && disjoint(self@) ==> forall|i: int|
                0 <= i < self@.len() ==> !covers(#[trigger] self@[i], pc),
    {
        let mut low: usize = 0;
        let mut high: usize = self.ranges.len();
        proof {
            law_search_finds_covering_range(self@, pc);
        }
        while low < high
            invariant
                low <= high <= self.ranges@.len(),
                bisect(self@, pc, low as int, high as int) == index_of(self@, pc),
            decreases high - low,
        {
            let mid: usize = low + (high - low) / 2;
            let range = &self.ranges[mid];
            assert(range@ == self@[mid as int]);
            if range.contains(pc) {
                return Some(mid);
            } else if pc < range.start {
                high = mid;
            } else {
                low = mid + 1;
            }
        }
        None
    }

    /// Where a range that starts at `start` goes in: behind every range that
    /// starts no later.
    fn slot(&self, start: u32) -> (at: usize)
        requires
            sorted_by_start(self@),
        ensures
            at == slot_of(self@, start),
            at <= self@.len(),
    {
        let mut low: usize = 0;
        let mut high: usize = self.ranges.len();
        while low < high
            invariant
                low <= high <= self.ranges@.len(),
                sorted_by_start(self@),
                forall|i: int| 0 <= i < low ==> (#[trigger] self@[i]).start <= start,
                forall|i: int| high <= i < self@.len() ==> start < (#[trigger] self@[i]).start,
            decreases high - low,
        {
            let mid: usize = low + (high - low) / 2;
            assert(self.ranges@[mid as int]@ == self@[mid as int]);
            if self.ranges[mid].start <= start {
                assert forall|i: int| 0 <= i < mid + 1 implies (#[trigger] self@[i]).start
                    <= start by {
                    assert(self@[i].start <= self@[mid as int].start);
                }
                low = mid + 1;
            } else {
                assert forall|i: int| mid <= i < self@.len() implies start < (
                #[trigger] self@[i]).start by {
                    assert(self@[mid as int].start <= self@[i].start);
                }
                high = mid;
            }
        }
        proof {
            lemma_slot_is_the_parting_index(self@, start, low as int);
        }
        low
    }

    /// Puts `range` into the table at its place in the order.
    fn insert(&mut self, range: SymbolRange)
        requires
            sorted_by_start(old(self)@),
        ensures
            final(self)@ == old(self)@.insert(slot_of(old(self)@, range@.start), range@),
            sorted_by_start(final(self)@),
    {
        let at = self.slot(range.start);
        let ghost before = self@;
        let ghost added = range@;
        self.ranges.insert(at, range);
        proof {
            assert(self@ =~= before.insert(at as int, added));
            lemma_insert_keeps_sorted(before, added);
        }
    }
}

/// Builds the table of function ranges from the entries of a symbol table,
/// and finds the address of the tracing control block among them. `text` is
/// the index of the text section.
pub fn range_names_from(symbols: &Vec<ElfSymbol>, text: Option<u16>) -> (found: (
    RangeNames,
    Option<u32>,
))
    ensures
        found.0@ == sorted_table(function_ranges(symbol_views(symbols@), text)),
        found.0.wf(),
        found.1 == tracing_address(symbol_views(symbols@)),
{
    let mut names = RangeNames { ranges: Vec::new() };
    let mut rtt: Option<u32> = None;
    let ghost all = symbol_views(symbols@);
    let mut i: usize = 0;
    assert(all.take(0) =~= Seq::empty());
    assert(names@ =~= Seq::empty());
    while i < symbols.len()
        invariant
            i <= symbols.len(),
            all == symbol_views(symbols@),
            sorted_by_start(names@),
            names@ == sorted_table(function_ranges(all.take(i as int), text)),
            rtt == tracing_address(all.take(i as int)),
        decreases symbols.len() - i,
    {
        let symbol = &symbols[i];
        proof {
            assert(all.take(i + 1).drop_last() =~= all.take(i as int));
            assert(all.take(i + 1).last() == symbol@);
        }
        match &symbol.name {
            Some(name) => {
                let in_text = match text {
                    Some(index) => index == symbol.shndx,
                    None => false,
                };
                if name.as_str().eq("_SEGGER_RTT") {
                    rtt = Some(symbol.value);
                } else if in_text && symbol.size != 0 {
                    let value: u32 = symbol.value;
                    let start: u32 = value & !1u32;
                    if start as u64 + symbol.size as u64 <= u32::MAX as u64 {
                        let name = strip_hash_suffix(demangle(name.as_str()));
                        let range = SymbolRange { start, size: symbol.size, name };
                        proof {
                            assert(range@ == symbol_range(symbol@));
                            assert(function_ranges(all.take(i + 1), text).drop_last()
                                =~= function_ranges(all.take(i as int), text));
                        }
                        names.insert(range);
                    }
                }
            },
            None => {},
        }
        i += 1;
    }
    proof {
        assert(all.take(i as int) =~= all);
        law_function_ranges_are_well_formed(all, text);
        law_table_is_sorted_rearrangement(function_ranges(all, text));
    }
    (names, rtt)
}

} // verus!
