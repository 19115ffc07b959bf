//! What the linker reads of one input object, as plain values.

use crate::model::{RelocationEncoding, RelocationKind};
use crate::text::views;
use vstd::prelude::*;

verus! {

/// `SHF_WRITE`: the section is writable at run time.
pub const SHF_WRITE: u64 = 0x1;

/// `SHF_ALLOC`: the section occupies memory at run time.
pub const SHF_ALLOC: u64 = 0x2;

/// `SHF_EXECINSTR`: the section holds machine instructions.
pub const SHF_EXECINSTR: u64 = 0x4;

/// A relocation of an input section.
#[derive(Debug, Copy, Clone)]
pub struct InputRelocation {
    /// Offset of the place into the input section.
    pub offset: u64,
    pub kind: RelocationKind,
    pub encoding: RelocationEncoding,
    /// Width of the place in bits.
    pub size: u8,
    pub addend: i64,
    /// Index of the symbol it points at; `None` where it points at no symbol.
    pub symbol: Option<usize>,
}

/// A section of an input object.
#[derive(Debug, Clone)]
pub struct InputSection {
    pub name: String,
    /// The bytes that the file holds for it; none for uninitialised data.
    pub data: Vec<u8>,
    /// Its size in memory.
    pub size: u64,
    /// Its `sh_flags`.
    pub flags: u64,
    /// Uninitialised data.
    pub is_bss: bool,
    pub relocations: Vec<InputRelocation>,
}

pub ghost struct InputSectionView {
    pub name: Seq<char>,
    pub data: Seq<u8>,
    pub size: u64,
    pub flags: u64,
    pub is_bss: bool,
    pub relocations: Seq<InputRelocation>,
}

impl View for InputSection {
    type V = InputSectionView;

    open spec fn view(&self) -> InputSectionView {
        InputSectionView {
            name: self.name@,
            data: self.data@,
            size: self.size,
            flags: self.flags,
            is_bss: self.is_bss,
            relocations: self.relocations@,
        }
    }
}

/// What kind of thing an input symbol names.
#[derive(Debug, Copy, Clone, PartialEq, Eq, Structural)]
pub enum InputSymbolKind {
    Section,
    File,
    Other,
}

/// Where an input symbol is defined.
#[derive(Debug, Copy, Clone, PartialEq, Eq, Structural)]
pub enum SymbolPlace {
    Undefined,
    /// In the section of this index.
    Section(usize),
    /// Absolute, common or unknown.
    Other,
}

/// A symbol of an input object.
#[derive(Debug, Clone)]
pub struct InputSymbol {
    pub name: String,
    pub kind: InputSymbolKind,
    pub place: SymbolPlace,
    /// Its value: for a defined symbol, its offset into its section.
    pub address: u64,
    /// Its binding is not local.
    pub is_global: bool,
}

pub ghost struct InputSymbolView {
    pub name: Seq<char>,
    pub kind: InputSymbolKind,
    pub place: SymbolPlace,
    pub address: u64,
    pub is_global: bool,
}

impl View for InputSymbol {
    type V = InputSymbolView;

    open spec fn view(&self) -> InputSymbolView {
        InputSymbolView {
            name: self.name@,
            kind: self.kind,
            place: self.place,
            address: self.address,
            is_global: self.is_global,
        }
    }
}

/// One ELF-64 input: a relocatable object or a shared object. The sections
/// and symbols stand at their ELF indices, the null entries included.
#[derive(Debug, Clone)]
pub struct InputObject {
    pub name: String,
    /// A shared object.
    pub is_dynamic: bool,
    pub sections: Vec<InputSection>,
    pub symbols: Vec<InputSymbol>,
    pub dynamic_symbols: Vec<InputSymbol>,
}

pub ghost struct InputObjectView {
    pub name: Seq<char>,
    pub is_dynamic: bool,
    pub sections: Seq<InputSectionView>,
    pub symbols: Seq<InputSymbolView>,
    pub dynamic_symbols: Seq<InputSymbolView>,
}

impl View for InputObject {
    type V = InputObjectView;

    open spec fn view(&self) -> InputObjectView {
        InputObjectView {
            name: self.name@,
            is_dynamic: self.is_dynamic,
            sections: views(self.sections@),
            symbols: views(self.symbols@),
            dynamic_symbols: views(self.dynamic_symbols@),
        }
    }
}

} // verus!
