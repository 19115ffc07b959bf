//! The linker's own records: output sections, symbols and relocations, and
//! the mathematical view of each.

use crate::text::views;
use vstd::prelude::*;

verus! {

/// One input file, read into memory.
#[derive(Debug, Clone)]
pub struct ObjectFile {
    pub name: String,
    /// --as-needed
    pub as_needed: bool,
    pub content: Vec<u8>,
}

/// How the value of a relocation is computed.
#[derive(Debug, Copy, Clone, PartialEq, Eq, Structural)]
pub enum RelocationKind {
    /// S + A
    Absolute,
    /// S + A - P
    Relative,
    /// L + A - P
    PltRelative,
    /// Any other computation.
    Other,
}

/// How the value of a relocation is stored at its place.
#[derive(Debug, Copy, Clone, PartialEq, Eq, Structural)]
pub enum RelocationEncoding {
    Generic,
    X86Signed,
    /// Any other encoding.
    Other,
}

/// What a relocation points at.
#[derive(Debug)]
pub enum RelocationTarget {
    /// An output section, with the size that it had when the relocation was
    /// recorded.
    Section((String, u64)),
    /// A symbol, by name.
    Symbol(String),
}

pub ghost enum TargetView {
    Section(Seq<char>, u64),
    Symbol(Seq<char>),
}

impl View for RelocationTarget {
    type V = TargetView;

    open spec fn view(&self) -> TargetView {
        match self {
            RelocationTarget::Section(p) => TargetView::Section(p.0@, p.1),
            RelocationTarget::Symbol(s) => TargetView::Symbol(s@),
        }
    }
}

/// A relocation whose place is given within an output section.
#[derive(Debug)]
pub struct Relocation {
    /// Offset of the place into the output section.
    pub offset: u64,
    pub kind: RelocationKind,
    pub encoding: RelocationEncoding,
    /// Width of the place in bits.
    pub size: u8,
    pub addend: i64,
    pub target: RelocationTarget,
}

pub ghost struct RelocationView {
    pub offset: u64,
    pub kind: RelocationKind,
    pub encoding: RelocationEncoding,
    pub size: u8,
    pub addend: i64,
    pub target: TargetView,
}

impl View for Relocation {
    type V = RelocationView;

    open spec fn view(&self) -> RelocationView {
        RelocationView {
            offset: self.offset,
            kind: self.kind,
            encoding: self.encoding,
            size: self.size,
            addend: self.addend,
            target: self.target@,
        }
    }
}

/// A symbol of the output, found by its name in the symbol table.
#[derive(Debug)]
pub struct Symbol {
    pub name: String,
    /// The output section in which it lies.
    pub section_name: String,
    /// Its offset into that section.
    pub offset: u64,
    /// Its name in the output `.strtab`.
    pub symbol_name_string_id: Option<object::write::StringId>,
    /// Its name in the output `.dynstr`.
    pub symbol_name_dynamic_string_id: Option<object::write::StringId>,
    pub is_global: bool,
    /// A stub in `.plt` for a symbol of a shared object.
    pub is_plt: bool,
}

pub ghost struct SymbolView {
    pub name: Seq<char>,
    pub section_name: Seq<char>,
    pub offset: u64,
    pub is_global: bool,
    pub is_plt: bool,
}

impl View for Symbol {
    type V = SymbolView;

    open spec fn view(&self) -> SymbolView {
        SymbolView {
            name: self.name@,
            section_name: self.section_name@,
            offset: self.offset,
            is_global: self.is_global,
            is_plt: self.is_plt,
        }
    }
}

/// A symbol of the dynamic symbol table, by name.
#[derive(Debug, Clone)]
pub struct DynamicSymbol {
    pub name: String,
}

impl View for DynamicSymbol {
    type V = Seq<char>;

    open spec fn view(&self) -> Seq<char> {
        self.name@
    }
}

/// A section of the output: what the inputs' sections of one name add up to.
#[derive(Debug)]
pub struct OutputSection {
    pub name: String,
    pub content: Vec<u8>,
    /// Offset in the output file.
    pub offset: u64,
    /// The relocations whose places lie in this section.
    pub relocations: Vec<Relocation>,
    pub is_executable: bool,
    pub is_writable: bool,
    pub is_bss: bool,
    /// Its index in the section header table.
    pub section_index: Option<u32>,
    /// Its name in `.shstrtab`.
    pub name_string_id: Option<object::write::StringId>,
}

pub ghost struct SectionView {
    pub name: Seq<char>,
    pub content: Seq<u8>,
    pub offset: u64,
    pub relocations: Seq<RelocationView>,
    pub is_executable: bool,
    pub is_writable: bool,
    pub is_bss: bool,
}

impl View for OutputSection {
    type V = SectionView;

    open spec fn view(&self) -> SectionView {
        SectionView {
            name: self.name@,
            content: self.content@,
            offset: self.offset,
            relocations: views(self.relocations@),
            is_executable: self.is_executable,
            is_writable: self.is_writable,
            is_bss: self.is_bss,
        }
    }
}

/// One record of a `.rela.*` section of the output.
#[derive(Debug, Copy, Clone, PartialEq, Eq, Structural)]
pub struct Rel {
    pub r_offset: u64,
    pub r_sym: u32,
    pub r_type: u32,
    pub r_addend: i64,
}

/// A section of dynamic relocations.
#[derive(Debug)]
pub struct OutputRelocationSection {
    pub name: String,
    pub relocations: Vec<Rel>,
    /// Offset in the output file.
    pub offset: u64,
    /// Its name in `.shstrtab`.
    pub name_string_id: Option<object::write::StringId>,
}

/// A shared object that the output needs at run time.
#[derive(Debug)]
pub struct Needed {
    pub name: String,
    /// Its name in `.dynstr`.
    pub name_string_id: Option<object::write::StringId>,
}

impl View for Needed {
    type V = Seq<char>;

    open spec fn view(&self) -> Seq<char> {
        self.name@
    }
}

/// Why a link failed. Every variant is fatal.
#[derive(Debug, Clone)]
pub enum LinkError {
    /// A library was found in none of the search directories.
    FileNotFound(String),
    /// An input failed to parse as ELF or as an archive.
    Malformed(String),
    /// An input that is no little-endian ELF-64 file.
    Unsupported(String),
    /// A relocation in the named section that the linker cannot evaluate.
    UnsupportedRelocation(String),
    /// A defined symbol that lies in no section.
    UnsupportedSymbol(String),
    /// An executable without `_start`.
    MissingEntry,
    /// A name that is looked up and was never defined.
    Undefined(String),
    /// An internal invariant does not hold.
    Bug,
}

pub ghost enum LinkErrorView {
    FileNotFound(Seq<char>),
    Malformed(Seq<char>),
    Unsupported(Seq<char>),
    UnsupportedRelocation(Seq<char>),
    UnsupportedSymbol(Seq<char>),
    MissingEntry,
    Undefined(Seq<char>),
    Bug,
}

impl View for LinkError {
    type V = LinkErrorView;

    open spec fn view(&self) -> LinkErrorView {
        match self {
            LinkError::FileNotFound(s) => LinkErrorView::FileNotFound(s@),
            LinkError::Malformed(s) => LinkErrorView::Malformed(s@),
            LinkError::Unsupported(s) => LinkErrorView::Unsupported(s@),
            LinkError::UnsupportedRelocation(s) => LinkErrorView::UnsupportedRelocation(s@),
            LinkError::UnsupportedSymbol(s) => LinkErrorView::UnsupportedSymbol(s@),
            LinkError::MissingEntry => LinkErrorView::MissingEntry,
            LinkError::Undefined(s) => LinkErrorView::Undefined(s@),
            LinkError::Bug => LinkErrorView::Bug,
        }
    }
}

} // verus!
