//! The parts of an ELF file that the image is built from, as plain records.
//!
//! Whoever parses the file fills these in, one record per header, in the
//! order of the file's tables.

use vstd::prelude::*;

verus! {

/// One entry of a 32-bit symbol table.
#[derive(Debug)]
pub struct ElfSymbol {
    /// The symbol's name, where the string table yields one.
    pub name: Option<String>,
    pub value: u32,
    pub size: u32,
    /// The index of the section that the symbol belongs to.
    pub shndx: u16,
}

/// One section header.
#[derive(Debug)]
pub struct ElfSection {
    /// The section's name, where the string table yields one.
    pub name: Option<String>,
    /// The address of the section on the target.
    pub address: u64,
    /// Where the section's contents start in the file.
    pub offset: u64,
    /// The length of the section's contents in bytes.
    pub size: u64,
    /// The entries of the section where it is a 32-bit symbol table, none
    /// otherwise.
    pub symbols: Vec<ElfSymbol>,
}

/// One program header.
#[derive(Clone, Copy, Debug, PartialEq, Eq, Structural)]
pub struct ElfSegment {
    /// Whether the segment is of load type.
    pub load: bool,
    pub virtual_addr: u64,
    pub physical_addr: u64,
}

/// The view of an optional name.
pub open spec fn name_view(name: Option<String>) -> Option<Seq<char>> {
    match name {
        Some(text) => Some(text@),
        None => None,
    }
}

/// The mathematical content of an [`ElfSymbol`].
pub struct ElfSymbolView {
    pub name: Option<Seq<char>>,
    pub value: u32,
    pub size: u32,
    pub shndx: u16,
}

impl View for ElfSymbol {
    type V = ElfSymbolView;

    open spec fn view(&self) -> ElfSymbolView {
        ElfSymbolView {
            name: name_view(self.name),
            value: self.value,
            size: self.size,
            shndx: self.shndx,
        }
    }
}

/// The views of a list of symbols, one for one.
pub open spec fn symbol_views(symbols: Seq<ElfSymbol>) -> Seq<ElfSymbolView> {
    Seq::new(symbols.len(), |i: int| symbols[i]@)
}

/// The mathematical content of an [`ElfSection`].
pub struct ElfSectionView {
    pub name: Option<Seq<char>>,
    pub address: u64,
    pub offset: u64,
    pub size: u64,
    pub symbols: Seq<ElfSymbolView>,
}

impl View for ElfSection {
    type V = ElfSectionView;

    open spec fn view(&self) -> ElfSectionView {
        ElfSectionView {
            name: name_view(self.name),
            address: self.address,
            offset: self.offset,
            size: self.size,
            symbols: symbol_views(self.symbols@),
        }
    }
}

/// The views of a list of sections, one for one.
pub open spec fn section_views(sections: Seq<ElfSection>) -> Seq<ElfSectionView> {
    Seq::new(sections.len(), |i: int| sections[i]@)
}

} // verus!
