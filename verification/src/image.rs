//! The image to load: which sections of an ELF file go to the target and
//! where, the reset vector, and what the later stages need from the file.

use crate::elf::{section_views, ElfSection, ElfSectionView, ElfSegment};
use crate::symbols::{
    function_ranges, range_names_from, sorted_table, tracing_address, RangeNames, SymbolRangeView,
};
use crate::words::{decode_words, words_le};
use vstd::prelude::*;
use vstd::slice::slice_to_vec;

verus! {

/// The sections that are loaded, by name.
#[derive(Clone, Copy, Debug, PartialEq, Eq, Structural)]
pub enum Loadable {
    /// `.vector_table`
    VectorTable,
    /// `.text`
    Text,
    /// `.rodata`
    Rodata,
    /// `.data`
    Data,
}

/// Why no image can be built from a file.
#[derive(Clone, Copy, Debug, PartialEq, Eq, Structural)]
pub enum ImageError {
    /// The size or the address of a section to load is no multiple of four.
    UnalignedSection(Loadable),
    /// An address does not fit in 32 bits.
    AddressOutOfRange,
    /// The contents of a section lie beyond the end of the file.
    SectionOutOfFile,
    /// The vector table has fewer than two words.
    TruncatedVectorTable,
    /// No load segment has the virtual address of `.data`.
    MissingDataPhysAddr,
    /// The file has no `.vector_table` section to load.
    MissingVectorTable,
    /// No symbol gives the address of the tracing control block.
    MissingTracingAddress,
    /// The file has no `.debug_frame` section.
    MissingDebugFrame,
    /// The file has no `.symtab` section.
    MissingSymbolTable,
}

/// A section to write to the target: `data` goes to `start`.
#[derive(Debug, PartialEq, Eq)]
pub struct Section {
    pub start: u32,
    pub data: Vec<u32>,
}

/// The mathematical content of a [`Section`].
pub struct SectionView {
    pub start: u32,
    pub data: Seq<u32>,
}

impl View for Section {
    type V = SectionView;

    open spec fn view(&self) -> SectionView {
        SectionView { start: self.start, data: self.data@ }
    }
}

/// The views of a list of sections to write, one for one.
pub open spec fn load_views(sections: Seq<Section>) -> Seq<SectionView> {
    Seq::new(sections.len(), |i: int| sections[i]@)
}

/// The `.data` section: it runs at `virt` and is loaded at `phys`, from
/// where the target's startup code copies it.
#[derive(Debug, PartialEq, Eq)]
pub struct Data {
    pub phys: u32,
    pub virt: u32,
    pub data: Vec<u32>,
}

/// The mathematical content of a [`Data`].
pub struct DataView {
    pub phys: u32,
    pub virt: u32,
    pub data: Seq<u32>,
}

impl View for Data {
    type V = DataView;

    open spec fn view(&self) -> DataView {
        DataView { phys: self.phys, virt: self.virt, data: self.data@ }
    }
}

/// The initial register values that the vector table gives.
#[derive(Clone, Copy, Debug, PartialEq, Eq, Structural)]
pub struct ResetVector {
    /// The address of the vector table.
    pub vtor: u32,
    /// The initial stack pointer: the table's first word.
    pub sp: u32,
    /// The reset handler: the table's second word.
    pub pc: u32,
}

/// All that is taken from the ELF file.
#[derive(Debug)]
pub struct Image {
    /// The sections to write, `.data` apart, in the order of the file.
    pub sections: Vec<Section>,
    /// The `.data` section, where the file has one to load.
    pub data: Option<Data>,
    pub reset: ResetVector,
    /// The table of function names, where the file has a `.symtab` section.
    pub range_names: Option<RangeNames>,
    /// The address of the tracing control block, where a symbol gives it.
    pub rtt: Option<u32>,
    /// The contents of `.debug_frame`, where the file has that section.
    pub debug_frame: Option<Vec<u8>>,
}

/// The mathematical content of an [`Image`].
pub struct ImageView {
    pub sections: Seq<SectionView>,
    pub data: Option<DataView>,
    pub reset: ResetVector,
    pub range_names: Option<Seq<SymbolRangeView>>,
    pub rtt: Option<u32>,
    pub debug_frame: Option<Seq<u8>>,
}

impl View for Image {
    type V = ImageView;

    open spec fn view(&self) -> ImageView {
        ImageView {
            sections: load_views(self.sections@),
            data: match self.data {
                Some(data) => Some(data@),
                None => None,
            },
            reset: self.reset,
            range_names: match self.range_names {
                Some(names) => Some(names@),
                None => None,
            },
            rtt: self.rtt,
            debug_frame: match self.debug_frame {
                Some(bytes) => Some(bytes@),
                None => None,
            },
        }
    }
}

/// Whether the section is the one that holds the call-frame information.
pub open spec fn is_debug_frame(section: ElfSectionView) -> bool {
    section.name == Some(".debug_frame"@)
}

/// Whether the section is read as the symbol table.
pub open spec fn is_symbol_table(section: ElfSectionView) -> bool {
    !is_debug_frame(section) && section.name == Some(".symtab"@)
}

/// Which of the loaded sections bears `name`, if any.
pub open spec fn loadable_name(name: Seq<char>) -> Option<Loadable> {
    if name == ".vector_table"@ {
        Some(Loadable::VectorTable)
    } else if name == ".text"@ {
        Some(Loadable::Text)
    } else if name == ".rodata"@ {
        Some(Loadable::Rodata)
    } else if name == ".data"@ {
        Some(Loadable::Data)
    } else {
        None
    }
}

/// As what the section is loaded: a section is loaded if it bears one of the
/// four names and is not empty.
pub open spec fn load_kind(section: ElfSectionView) -> Option<Loadable> {
    if is_debug_frame(section) || section.size == 0 {
        None
    } else {
        match section.name {
            Some(name) => loadable_name(name),
            None => None,
        }
    }
}

/// The bytes of the file that the section header points at, where that
/// stretch lies within the file.
pub open spec fn contents(file: Seq<u8>, section: ElfSectionView) -> Option<Seq<u8>> {
    if section.offset + section.size <= file.len() {
        Some(file.subrange(section.offset as int, section.offset + section.size))
    } else {
        None
    }
}

/// What is wrong with one section, if anything.
pub open spec fn section_fault(file: Seq<u8>, section: ElfSectionView) -> Option<ImageError> {
    if is_debug_frame(section) {
        if contents(file, section) is None {
            Some(ImageError::SectionOutOfFile)
        } else {
            None
        }
    } else {
        match load_kind(section) {
            Some(kind) => {
                if section.size % 4 != 0 || section.address % 4 != 0 {
                    Some(ImageError::UnalignedSection(kind))
                } else if section.address > u32::MAX {
                    Some(ImageError::AddressOutOfRange)
                } else if contents(file, section) is None {
                    Some(ImageError::SectionOutOfFile)
                } else if kind == Loadable::VectorTable && section.size < 8 {
                    Some(ImageError::TruncatedVectorTable)
                } else {
                    None
                }
            },
            None => None,
        }
    }
}

/// The fault of the first section that has one.
pub open spec fn first_fault(file: Seq<u8>, sections: Seq<ElfSectionView>) -> Option<ImageError>
    decreases sections.len(),
{
    if sections.len() == 0 {
        None
    } else {
        match first_fault(file, sections.drop_last()) {
            Some(fault) => Some(fault),
            None => section_fault(file, sections.last()),
        }
    }
}

/// What a loaded section becomes: its address, and its contents as
/// little-endian words.
pub open spec fn section_image(file: Seq<u8>, section: ElfSectionView) -> SectionView {
    SectionView { start: section.address as u32, data: words_le(contents(file, section)->0) }
}

/// The sections to write, `.data` apart, in the order of the file.
pub open spec fn loaded_sections(file: Seq<u8>, sections: Seq<ElfSectionView>) -> Seq<SectionView>
    decreases sections.len(),
{
    if sections.len() == 0 {
        Seq::empty()
    } else {
        let earlier = loaded_sections(file, sections.drop_last());
        match load_kind(sections.last()) {
            Some(kind) => if kind == Loadable::Data {
                earlier
            } else {
                earlier.push(section_image(file, sections.last()))
            },
            None => earlier,
        }
    }
}

/// The last section that is loaded as `kind`.
pub open spec fn last_of_kind(sections: Seq<ElfSectionView>, kind: Loadable) -> Option<
    ElfSectionView,
>
    decreases sections.len(),
{
    if sections.len() == 0 {
        None
    } else if load_kind(sections.last()) == Some(kind) {
        Some(sections.last())
    } else {
        last_of_kind(sections.drop_last(), kind)
    }
}

/// The last section that holds call-frame information.
pub open spec fn last_debug_frame(sections: Seq<ElfSectionView>) -> Option<ElfSectionView>
    decreases sections.len(),
{
    if sections.len() == 0 {
        None
    } else if is_debug_frame(sections.last()) {
        Some(sections.last())
    } else {
        last_debug_frame(sections.drop_last())
    }
}

/// The last section that is read as the symbol table.
pub open spec fn last_symbol_table(sections: Seq<ElfSectionView>) -> Option<ElfSectionView>
    decreases sections.len(),
{
    if sections.len() == 0 {
        None
    } else if is_symbol_table(sections.last()) {
        Some(sections.last())
    } else {
        last_symbol_table(sections.drop_last())
    }
}

/// The index of the first section named `.text`.
pub open spec fn first_text(sections: Seq<ElfSectionView>) -> Option<int>
    decreases sections.len(),
{
    if sections.len() == 0 {
        None
    } else {
        match first_text(sections.drop_last()) {
            Some(index) => Some(index),
            None => if sections.last().name == Some(".text"@) {
                Some(sections.len() - 1)
            } else {
                None
            },
        }
    }
}

/// The index of the text section as symbols refer to it: in 16 bits.
pub open spec fn text_index(sections: Seq<ElfSectionView>) -> Option<u16> {
    match first_text(sections) {
        Some(index) => if index <= u16::MAX {
            Some(index as u16)
        } else {
            None
        },
        None => None,
    }
}

/// The physical address of `.data`: that of the first load segment whose
/// virtual address is `virt`. The search fails at a load segment whose
/// address does not fit in 32 bits.
pub open spec fn data_phys(segments: Seq<ElfSegment>, virt: u32) -> Result<u32, ImageError>
    decreases segments.len(),
{
    if segments.len() == 0 {
        Err(ImageError::MissingDataPhysAddr)
    } else {
        let first = segments.first();
        if !first.load {
            data_phys(segments.drop_first(), virt)
        } else if first.virtual_addr > u32::MAX {
            Err(ImageError::AddressOutOfRange)
        } else if first.virtual_addr != virt {
            data_phys(segments.drop_first(), virt)
        } else if first.physical_addr > u32::MAX {
            Err(ImageError::AddressOutOfRange)
        } else {
            Ok(first.physical_addr as u32)
        }
    }
}

/// What stands in the way of an image: the first fault among the sections,
/// else an unresolved physical address of `.data`, else the lack of a vector
/// table.
pub open spec fn image_fault(
    file: Seq<u8>,
    sections: Seq<ElfSectionView>,
    segments: Seq<ElfSegment>,
) -> Option<ImageError> {
    match first_fault(file, sections) {
        Some(fault) => Some(fault),
        None => {
            let patch = match last_of_kind(sections, Loadable::Data) {
                Some(data) => data_phys(segments, data.address as u32),
                None => Ok(0u32),
            };
            match patch {
                Err(fault) => Some(fault),
                Ok(_) => if last_of_kind(sections, Loadable::VectorTable) is None {
                    Some(ImageError::MissingVectorTable)
                } else {
                    None
                },
            }
        },
    }
}

/// The reset vector that a vector table section gives.
pub open spec fn reset_of(file: Seq<u8>, table: ElfSectionView) -> ResetVector {
    let words = words_le(contents(file, table)->0);
    ResetVector { vtor: table.address as u32, sp: words[0], pc: words[1] }
}

/// The `.data` section as it is loaded.
pub open spec fn data_of(file: Seq<u8>, data: ElfSectionView, segments: Seq<ElfSegment>) -> DataView {
    DataView {
        phys: data_phys(segments, data.address as u32)->Ok_0,
        virt: data.address as u32,
        data: words_le(contents(file, data)->0),
    }
}

/// Whether `image` is what a file with these contents, section headers and
/// program headers gives, the file having no fault.
pub open spec fn is_image_of(
    image: ImageView,
    file: Seq<u8>,
    sections: Seq<ElfSectionView>,
    segments: Seq<ElfSegment>,
) -> bool {
    &&& image.sections == loaded_sections(file, sections)
    &&& image.data == match last_of_kind(sections, Loadable::Data) {
        Some(data) => Some(data_of(file, data, segments)),
        None => None,
    }
    &&& image.reset == reset_of(file, last_of_kind(sections, Loadable::VectorTable)->0)
    &&& image.debug_frame == match last_debug_frame(sections) {
        Some(section) => contents(file, section),
        None => None,
    }
    &&& image.range_names == match last_symbol_table(sections) {
        Some(table) => Some(sorted_table(function_ranges(table.symbols, text_index(sections)))),
        None => None,
    }
    &&& image.rtt == match last_symbol_table(sections) {
        Some(table) => tracing_address(table.symbols),
        None => None,
    }
}

impl Image {
    /// The address of the tracing control block, which the monitor cannot do
    /// without.
    pub fn tracing_address(&self) -> (address: Result<u32, ImageError>)
        ensures
            address == match self.rtt {
                Some(found) => Ok::<u32, ImageError>(found),
                None => Err(ImageError::MissingTracingAddress),
            },
    {
        match self.rtt {
            Some(found) => Ok(found),
            None => Err(ImageError::MissingTracingAddress),
        }
    }

    /// What the unwinder works from: the contents of `.debug_frame` and the
    /// table of function names. The lack of the first is reported before
    /// the lack of the second.
    pub fn unwind_tables(&self) -> (tables: Result<(&Vec<u8>, &RangeNames), ImageError>)
        ensures
            match tables {
                Ok((debug_frame, names)) => self.debug_frame == Some(*debug_frame)
                    && self.range_names == Some(*names),
                Err(fault) => if self.debug_frame is None {
                    fault == ImageError::MissingDebugFrame
                } else {
                    self.range_names is None && fault == ImageError::MissingSymbolTable
                },
            },
    {
        match &self.debug_frame {
            Some(debug_frame) => match &self.range_names {
                Some(names) => Ok((debug_frame, names)),
                None => Err(ImageError::MissingSymbolTable),
            },
            None => Err(ImageError::MissingDebugFrame),
        }
    }
}

/// Whether the entries of a section with this name are read as symbols:
/// they are those of `.symtab`.
pub fn reads_symbols(name: &str) -> (wanted: bool)
    ensures
        wanted == (name@ == ".symtab"@),
{
    name.eq(".symtab")
}

fn has_name(section: &ElfSection, name: &str) -> (same: bool)
    ensures
        same == (section@.name == Some(name@)),
{
    match &section.name {
        Some(text) => text.as_str().eq(name),
        None => false,
    }
}

fn load_kind_of(section: &ElfSection) -> (kind: Option<Loadable>)
    ensures
        kind == load_kind(section@),
{
    if has_name(section, ".debug_frame") || section.size == 0 {
        None
    } else if has_name(section, ".vector_table") {
        Some(Loadable::VectorTable)
    } else if has_name(section, ".text") {
        Some(Loadable::Text)
    } else if has_name(section, ".rodata") {
        Some(Loadable::Rodata)
    } else if has_name(section, ".data") {
        Some(Loadable::Data)
    } else {
        None
    }
}

fn contents_of<'a>(file: &'a [u8], section: &ElfSection) -> (bytes: Option<&'a [u8]>)
    ensures
        bytes matches Some(found) ==> contents(file@, section@) == Some(found@),
        bytes is None ==> contents(file@, section@) is None,
{
    let len: usize = file.len();
    if section.offset <= len as u64 && section.size <= len as u64 - section.offset {
        let from: usize = section.offset as usize;
        let to: usize = from + section.size as usize;
        Some(&file[from..to])
    } else {
        None
    }
}

fn text_index_of(sections: &Vec<ElfSection>) -> (index: Option<u16>)
    ensures
        index == text_index(section_views(sections@)),
{
    let ghost all = section_views(sections@);
    let mut i: usize = 0;
    assert(all.take(0) =~= Seq::empty());
    while i < sections.len()
        invariant
            i <= sections.len(),
            all == section_views(sections@),
            first_text(all.take(i as int)) is None,
        decreases sections.len() - i,
    {
        proof {
            assert(all.take(i + 1).drop_last() =~= all.take(i as int));
            assert(all.take(i + 1).last() == sections@[i as int]@);
        }
        if has_name(&sections[i], ".text") {
            proof {
                lemma_first_text_stays(all, i + 1);
            }
            return if i <= u16::MAX as usize {
                Some(i as u16)
            } else {
                None
            };
        }
        i += 1;
    }
    assert(all.take(i as int) =~= all);
    None
}

proof fn lemma_first_text_stays(sections: Seq<ElfSectionView>, upto: int)
    requires
        0 <= upto <= sections.len(),
        first_text(sections.take(upto)) is Some,
    ensures
        first_text(sections) == first_text(sections.take(upto)),
    decreases sections.len() - upto,
{
    if upto < sections.len() {
        assert(sections.take(upto + 1).drop_last() =~= sections.take(upto));
        lemma_first_text_stays(sections, upto + 1);
    } else {
        assert(sections.take(upto) =~= sections);
    }
}

fn data_phys_of(segments: &Vec<ElfSegment>, virt: u32) -> (phys: Result<u32, ImageError>)
    ensures
        phys == data_phys(segments@, virt),
{
    let mut i: usize = 0;
    assert(segments@.skip(0) =~= segments@);
    while i < segments.len()
        invariant
            i <= segments.len(),
            data_phys(segments@.skip(i as int), virt) == data_phys(segments@, virt),
        decreases segments.len() - i,
    {
        let segment = segments[i];
        proof {
            assert(segments@.skip(i as int).first() == segment);
            assert(segments@.skip(i as int).drop_first() =~= segments@.skip(i + 1));
        }
        if segment.load {
            if segment.virtual_addr > u32::MAX as u64 {
                return Err(ImageError::AddressOutOfRange);
            }
            if segment.virtual_addr as u32 == virt {
                if segment.physical_addr > u32::MAX as u64 {
                    return Err(ImageError::AddressOutOfRange);
                }
                return Ok(segment.physical_addr as u32);
            }
        }
        i += 1;
    }
    Err(ImageError::MissingDataPhysAddr)
}

/// Builds the image from the parts of an ELF file: `file` is the file as a
/// whole, `sections` its section headers and `segments` its program headers,
/// each in the order of the file.
///
/// Every section named `.vector_table`, `.text`, `.rodata` or `.data` that
/// is not empty is loaded; its size and address must be multiples of four.
pub fn build_image(file: &[u8], sections: &Vec<ElfSection>, segments: &Vec<ElfSegment>) -> (result:
    Result<Image, ImageError>)
    ensures
        match result {
            Ok(image) => {
                &&& image_fault(file@, section_views(sections@), segments@) is None
                &&& is_image_of(image@, file@, section_views(sections@), segments@)
                &&& image.range_names matches Some(names) ==> names.wf()
            },
            Err(fault) => image_fault(file@, section_views(sections@), segments@) == Some(fault),
        },
{
    let text = text_index_of(sections);
    let ghost all = section_views(sections@);
    let mut loaded: Vec<Section> = Vec::new();
    let mut data: Option<Data> = None;
    let mut reset: Option<ResetVector> = None;
    let mut range_names: Option<RangeNames> = None;
    let mut rtt: Option<u32> = None;
    let mut debug_frame: Option<Vec<u8>> = None;
    let mut i: usize = 0;
    assert(all.take(0) =~= Seq::empty());
    assert(load_views(loaded@) =~= Seq::empty());
    while i < sections.len()
        invariant
            i <= sections.len(),
            all == section_views(sections@),
            text == text_index(all),
            first_fault(file@, all.take(i as int)) is None,
            load_views(loaded@) == loaded_sections(file@, all.take(i as int)),
            match last_of_kind(all.take(i as int), Loadable::Data) {
                Some(section) => data matches Some(found) && found.virt == section.address as u32
                    && found.data@ == words_le(contents(file@, section)->0),
                None => data is None,
            },
            match last_of_kind(all.take(i as int), Loadable::VectorTable) {
                Some(table) => reset == Some(reset_of(file@, table)),
                None => reset is None,
            },
            match last_debug_frame(all.take(i as int)) {
                Some(section) => debug_frame matches Some(bytes) && contents(file@, section)
                    == Some(bytes@),
                None => debug_frame is None,
            },
            match last_symbol_table(all.take(i as int)) {
                Some(table) => {
                    &&& range_names matches Some(names)
                    &&& names.wf()
                    &&& names@ == sorted_table(function_ranges(table.symbols, text))
                    &&& rtt == tracing_address(table.symbols)
                },
                None => range_names is None && rtt is None,
            },
        decreases sections.len() - i,
    {
        let section = &sections[i];
        proof {
            assert(all.take(i + 1).drop_last() =~= all.take(i as int));
            assert(all.take(i + 1).last() == section@);
        }
        if has_name(section, ".debug_frame") {
            match contents_of(file, section) {
                Some(bytes) => {
                    debug_frame = Some(slice_to_vec(bytes));
                },
                None => {
                    proof {
                        lemma_fault_stays(file@, all, i + 1);
                    }
                    return Err(ImageError::SectionOutOfFile);
                },
            }
        } else {
            if has_name(section, ".symtab") {
                let (names, address) = range_names_from(&section.symbols, text);
                range_names = Some(names);
                rtt = address;
            }
            match load_kind_of(section) {
                Some(kind) => {
                    if section.size % 4 != 0 || section.address % 4 != 0 {
                        proof {
                            lemma_fault_stays(file@, all, i + 1);
                        }
                        return Err(ImageError::UnalignedSection(kind));
                    }
                    if section.address > u32::MAX as u64 {
                        proof {
                            lemma_fault_stays(file@, all, i + 1);
                        }
                        return Err(ImageError::AddressOutOfRange);
                    }
                    let start: u32 = section.address as u32;
                    let words = match contents_of(file, section) {
                        Some(bytes) => decode_words(bytes),
                        None => {
                            proof {
                                lemma_fault_stays(file@, all, i + 1);
                            }
                            return Err(ImageError::SectionOutOfFile);
                        },
                    };
                    match kind {
                        Loadable::VectorTable => {
                            if words.len() < 2 {
                                proof {
                                    lemma_fault_stays(file@, all, i + 1);
                                }
                                return Err(ImageError::TruncatedVectorTable);
                            }
                            reset = Some(ResetVector { vtor: start, sp: words[0], pc: words[1] });
                            let ghost before = load_views(loaded@);
                            loaded.push(Section { start, data: words });
                            assert(load_views(loaded@) =~= before.push(
                                section_image(file@, section@),
                            ));
                        },
                        Loadable::Data => {
                            data = Some(Data { phys: start, virt: start, data: words });
                        },
                        _ => {
                            let ghost before = load_views(loaded@);
                            loaded.push(Section { start, data: words });
                            assert(load_views(loaded@) =~= before.push(
                                section_image(file@, section@),
                            ));
                        },
                    }
                },
                None => {},
            }
        }
        i += 1;
    }
    assert(all.take(i as int) =~= all);
    let data = match data {
        Some(found) => {
            match data_phys_of(segments, found.virt) {
                Ok(phys) => Some(Data { phys, virt: found.virt, data: found.data }),
                Err(fault) => {
                    return Err(fault);
                },
            }
        },
        None => None,
    };
    match reset {
        Some(reset) => Ok(Image { sections: loaded, data, reset, range_names, rtt, debug_frame }),
        None => Err(ImageError::MissingVectorTable),
    }
}

proof fn lemma_fault_stays(file: Seq<u8>, sections: Seq<ElfSectionView>, upto: int)
    requires
        0 <= upto <= sections.len(),
        first_fault(file, sections.take(upto)) is Some,
    ensures
        first_fault(file, sections) == first_fault(file, sections.take(upto)),
    decreases sections.len() - upto,
{
    if upto < sections.len() {
        assert(sections.take(upto + 1).drop_last() =~= sections.take(upto));
        lemma_fault_stays(file, sections, upto + 1);
    } else {
        assert(sections.take(upto) =~= sections);
    }
}

/// A loaded section keeps its address, which is a multiple of four as its
/// size is, and holds one word for every four bytes of its contents, each
/// the little-endian value of those bytes.
pub proof fn law_loaded_section_is_aligned_words(file: Seq<u8>, section: ElfSectionView)
    requires
        load_kind(section) is Some,
        section_fault(file, section) is None,
    ensures
        section.size != 0,
        section.size % 4 == 0,
        section_image(file, section).start == section.address,
        section_image(file, section).start % 4 == 0,
        section_image(file, section).data.len() * 4 == section.size,
        forall|k: int|
            0 <= k < section_image(file, section).data.len() ==> #[trigger] section_image(
                file,
                section,
            ).data[k] == crate::words::word_le(
                file[section.offset + 4 * k],
                file[section.offset + 4 * k + 1],
                file[section.offset + 4 * k + 2],
                file[section.offset + 4 * k + 3],
            ),
{
}

/// An empty section is not loaded, whatever its name: the sections to
/// write are the same with it as without it.
pub proof fn law_empty_section_is_not_loaded(
    file: Seq<u8>,
    sections: Seq<ElfSectionView>,
    section: ElfSectionView,
)
    requires
        section.size == 0,
    ensures
        load_kind(section) is None,
        loaded_sections(file, sections.push(section)) == loaded_sections(file, sections),
        forall|kind: Loadable| #[trigger]
            last_of_kind(sections.push(section), kind) == last_of_kind(sections, kind),
{
    assert(sections.push(section).drop_last() =~= sections);
}

/// The same file gives the same image: whatever two images are built from
/// one file agree in all that is written to the target and in all else.
pub proof fn law_same_file_same_image(
    first: ImageView,
    second: ImageView,
    file: Seq<u8>,
    sections: Seq<ElfSectionView>,
    segments: Seq<ElfSegment>,
)
    requires
        is_image_of(first, file, sections, segments),
        is_image_of(second, file, sections, segments),
    ensures
        first == second,
{
}

} // verus!
