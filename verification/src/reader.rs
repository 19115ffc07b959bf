//! Reading input objects with the outside ELF reader. The reader works on
//! the bytes of a file; what it finds there is handed over as plain values.

use crate::input::{
    InputObject, InputObjectView, InputRelocation, InputSection, InputSectionView, InputSymbol,
    InputSymbolKind, InputSymbolView, SymbolPlace,
};
use crate::model::{LinkError, LinkErrorView, RelocationEncoding, RelocationKind};
use crate::text::{lemma_views_push, option_view, views};
use object::read::archive::ArchiveFile;
use object::read::elf::ElfFile64;
use object::{
    Endianness, Object, ObjectSection, ObjectSymbol, ObjectSymbolTable,
    RelocationEncoding as Encoding, RelocationKind as Kind, RelocationTarget as Target,
    SectionFlags, SectionIndex, SectionKind, SymbolIndex, SymbolKind, SymbolSection,
};
use vstd::prelude::*;
use vstd::string::*;

verus! {

/// What kind of file the outside reader takes some bytes for.
#[derive(Debug, Copy, Clone, PartialEq, Eq, Structural)]
pub enum Format {
    /// An ELF-64 file.
    Elf64,
    /// A file of another format that the reader knows.
    Other,
    /// Nothing that the reader can parse.
    Malformed,
}

/// The format that the outside reader finds in `data`.
pub uninterp spec fn format_of(data: Seq<u8>) -> Format;

/// Whether the ELF-64 file `data` is little-endian: byte 5 of its header,
/// which tells the byte order, is 1.
pub open spec fn little_endian_of(data: Seq<u8>) -> bool {
    data[5] == 1
}

/// The two-byte field at `at` of the header of the ELF-64 file `data`, read
/// in the byte order of the file.
pub open spec fn header_half(data: Seq<u8>, at: int) -> int {
    if little_endian_of(data) {
        data[at] + 256 * data[at + 1]
    } else {
        256 * data[at] + data[at + 1]
    }
}

/// Whether the ELF-64 file `data` is for x86-64: its `e_machine`, at byte 18,
/// is 62.
pub open spec fn x86_64_of(data: Seq<u8>) -> bool {
    header_half(data, 18) == 62
}

/// Whether the ELF-64 file `data` is a shared object: its `e_type`, at byte
/// 16, is 3.
pub open spec fn shared_of(data: Seq<u8>) -> bool {
    header_half(data, 16) == 3
}

/// The number of section headers of the ELF-64 file `data`, the null section
/// included.
pub uninterp spec fn section_total(data: Seq<u8>) -> nat;

/// The section of index `i` of the ELF-64 file `data`, without its
/// relocations; `None` where the reader fails on it.
pub uninterp spec fn section_at(data: Seq<u8>, i: nat) -> Option<InputSectionView>;

/// The number of relocations that apply to the section of index `i`.
pub uninterp spec fn relocation_total(data: Seq<u8>, i: nat) -> nat;

/// The relocation of index `j` of the section of index `i`; `None` where the
/// reader fails on it.
pub uninterp spec fn relocation_at(data: Seq<u8>, i: nat, j: nat) -> Option<InputRelocation>;

/// The number of symbols of the ELF-64 file `data`, the null symbol included.
pub uninterp spec fn symbol_total(data: Seq<u8>) -> nat;

/// The symbol of index `k`; `None` where the reader fails on it.
pub uninterp spec fn symbol_at(data: Seq<u8>, k: nat) -> Option<InputSymbolView>;

/// The number of dynamic symbols of the ELF-64 file `data`, the null symbol
/// included.
pub uninterp spec fn dynamic_symbol_total(data: Seq<u8>) -> nat;

/// The dynamic symbol of index `k`; `None` where the reader fails on it.
pub uninterp spec fn dynamic_symbol_at(data: Seq<u8>, k: nat) -> Option<InputSymbolView>;

/// The number of members of the archive `data`; `None` where the reader
/// fails on the archive.
pub uninterp spec fn member_total(data: Seq<u8>) -> Option<nat>;

/// The name and the bytes of the member of index `k` of the archive `data`;
/// `None` where the reader fails on it.
pub uninterp spec fn member_at(data: Seq<u8>, k: nat) -> Option<(Seq<char>, Seq<u8>)>;

/// Calls `object::File::parse` and tells which format it found.
#[verifier::external_body]
pub(crate) fn file_format(data: &[u8]) -> (f: Format)
    ensures
        f == format_of(data@),
{
    match object::File::parse(data) {
        Ok(object::File::Elf64(_)) => Format::Elf64,
        Ok(_) => Format::Other,
        Err(_) => Format::Malformed,
    }
}

/// Calls `ElfFile64::parse` and `Object::is_little_endian`, which tests the
/// byte of the header that tells the byte order.
#[verifier::external_body]
pub(crate) fn is_little_endian(data: &[u8]) -> (b: bool)
    requires
        format_of(data@) == Format::Elf64,
    ensures
        b == little_endian_of(data@),
{
    let file = ElfFile64::<Endianness>::parse(data);
    file.map_or(false, |f| object::Object::is_little_endian(&f))
}

/// Calls `ElfFile64::parse` and `Object::architecture`, which for a 64-bit
/// file gives x86-64 where `e_machine`, read in the byte order of the file,
/// is 62, and only there.
#[verifier::external_body]
pub(crate) fn is_x86_64(data: &[u8]) -> (b: bool)
    requires
        format_of(data@) == Format::Elf64,
    ensures
        b == x86_64_of(data@),
{
    let file = ElfFile64::<Endianness>::parse(data);
    file.map_or(false, |f| matches!(object::Object::architecture(&f), object::Architecture::X86_64))
}

/// Calls `ElfFile64::parse` and `Object::kind`, which gives a shared object
/// where `e_type`, read in the byte order of the file, is 3, and only there.
#[verifier::external_body]
pub(crate) fn is_shared(data: &[u8]) -> (b: bool)
    requires
        format_of(data@) == Format::Elf64,
    ensures
        b == shared_of(data@),
{
    let file = ElfFile64::<Endianness>::parse(data);
    file.map_or(false, |f| matches!(object::Object::kind(&f), object::ObjectKind::Dynamic))
}

/// Calls `ElfFile64::parse` and asks the section table for its length.
#[verifier::external_body]
pub(crate) fn section_count(data: &[u8]) -> (n: usize)
    requires
        format_of(data@) == Format::Elf64,
    ensures
        n == section_total(data@),
{
    let file = ElfFile64::<Endianness>::parse(data);
    file.map_or(0, |f| f.elf_section_table().len())
}

/// Calls `ElfFile64::parse` and `Object::section_by_index`, and reads the
/// section's name, data, size, flags and kind.
#[verifier::external_body]
pub(crate) fn read_section(data: &[u8], i: usize) -> (s: Option<InputSection>)
    requires
        format_of(data@) == Format::Elf64,
    ensures
        option_view(s) == section_at(data@, i as nat),
{
    let file = ElfFile64::<Endianness>::parse(data).ok()?;
    let s = file.section_by_index(SectionIndex(i)).ok()?;
    Some(InputSection {
        name: s.name().ok()?.to_string(),
        data: s.data().ok()?.to_vec(),
        size: s.size(),
        flags: match s.flags() { SectionFlags::Elf { sh_flags } => sh_flags, _ => 0 },
        is_bss: matches!(s.kind(), SectionKind::UninitializedData),
        relocations: Vec::new(),
    })
}

/// Calls `ElfFile64::parse` and `Object::section_by_index`, and counts the
/// relocations that `ObjectSection::relocations` yields.
#[verifier::external_body]
pub(crate) fn relocation_count(data: &[u8], i: usize) -> (n: usize)
    requires
        format_of(data@) == Format::Elf64,
    ensures
        n == relocation_total(data@, i as nat),
{
    let file = ElfFile64::<Endianness>::parse(data);
    file.map_or(0, |f| f.section_by_index(SectionIndex(i)).map_or(0, |s| s.relocations().count()))
}

/// Calls `ElfFile64::parse`, `Object::section_by_index` and
/// `ObjectSection::relocations`, and reads the offset, kind, encoding, size,
/// addend and target of the relocation of index `j`.
#[verifier::external_body]
pub(crate) fn read_relocation(data: &[u8], i: usize, j: usize) -> (r: Option<InputRelocation>)
    requires
        format_of(data@) == Format::Elf64,
    ensures
        r == relocation_at(data@, i as nat, j as nat),
{
    let file = ElfFile64::<Endianness>::parse(data).ok()?;
    let (offset, r) = file.section_by_index(SectionIndex(i)).ok()?.relocations().nth(j)?;
    let kind = match r.kind() {
        Kind::Absolute => RelocationKind::Absolute,
        Kind::Relative => RelocationKind::Relative,
        Kind::PltRelative => RelocationKind::PltRelative,
        _ => RelocationKind::Other,
    };
    let encoding = match r.encoding() {
        Encoding::Generic => RelocationEncoding::Generic,
        Encoding::X86Signed => RelocationEncoding::X86Signed,
        _ => RelocationEncoding::Other,
    };
    let symbol = match r.target() { Target::Symbol(s) => Some(s.0), _ => None };
    Some(InputRelocation { offset, kind, encoding, size: r.size(), addend: r.addend(), symbol })
}

/// Calls `ElfFile64::parse` and asks the symbol table for its length.
#[verifier::external_body]
pub(crate) fn symbol_count(data: &[u8]) -> (n: usize)
    requires
        format_of(data@) == Format::Elf64,
    ensures
        n == symbol_total(data@),
{
    let file = ElfFile64::<Endianness>::parse(data);
    file.map_or(0, |f| f.elf_symbol_table().len())
}

/// Calls `ElfFile64::parse` and `Object::symbol_by_index`, and reads the
/// symbol's name, kind, section, address and binding.
#[verifier::external_body]
pub(crate) fn read_symbol(data: &[u8], k: usize) -> (s: Option<InputSymbol>)
    requires
        format_of(data@) == Format::Elf64,
    ensures
        option_view(s) == symbol_at(data@, k as nat),
{
    let file = ElfFile64::<Endianness>::parse(data).ok()?;
    let s = file.symbol_by_index(SymbolIndex(k)).ok()?;
    let kind = match s.kind() {
        SymbolKind::Section => InputSymbolKind::Section,
        SymbolKind::File => InputSymbolKind::File,
        _ => InputSymbolKind::Other,
    };
    let place = match s.section() {
        SymbolSection::Undefined => SymbolPlace::Undefined,
        SymbolSection::Section(i) => SymbolPlace::Section(i.0),
        _ => SymbolPlace::Other,
    };
    let name = s.name().ok()?.to_string();
    Some(InputSymbol { name, kind, place, address: s.address(), is_global: s.is_global() })
}

/// Calls `ElfFile64::parse` and asks the dynamic symbol table for its
/// length.
#[verifier::external_body]
pub(crate) fn dynamic_symbol_count(data: &[u8]) -> (n: usize)
    requires
        format_of(data@) == Format::Elf64,
    ensures
        n == dynamic_symbol_total(data@),
{
    let file = ElfFile64::<Endianness>::parse(data);
    file.map_or(0, |f| f.elf_dynamic_symbol_table().len())
}

/// Calls `ElfFile64::parse`, `Object::dynamic_symbol_table` and
/// `ObjectSymbolTable::symbol_by_index`, and reads the symbol's name, kind,
/// section, address and binding.
#[verifier::external_body]
pub(crate) fn read_dynamic_symbol(data: &[u8], k: usize) -> (s: Option<InputSymbol>)
    requires
        format_of(data@) == Format::Elf64,
    ensures
        option_view(s) == dynamic_symbol_at(data@, k as nat),
{
    let file = ElfFile64::<Endianness>::parse(data).ok()?;
    let s = file.dynamic_symbol_table()?.symbol_by_index(SymbolIndex(k)).ok()?;
    let kind = match s.kind() {
        SymbolKind::Section => InputSymbolKind::Section,
        SymbolKind::File => InputSymbolKind::File,
        _ => InputSymbolKind::Other,
    };
    let place = match s.section() {
        SymbolSection::Undefined => SymbolPlace::Undefined,
        SymbolSection::Section(i) => SymbolPlace::Section(i.0),
        _ => SymbolPlace::Other,
    };
    let name = s.name().ok()?.to_string();
    Some(InputSymbol { name, kind, place, address: s.address(), is_global: s.is_global() })
}

/// Calls `ArchiveFile::parse` and counts the members that
/// `ArchiveFile::members` yields.
#[verifier::external_body]
pub(crate) fn member_count(data: &[u8]) -> (n: Option<usize>)
    ensures
        n is Some == member_total(data@) is Some,
        n is Some ==> n->Some_0 == member_total(data@)->Some_0,
{
    Some(ArchiveFile::parse(data).ok()?.members().count())
}

/// Calls `ArchiveFile::parse` and `ArchiveFile::members`, and reads the name
/// and the bytes of the member of index `k`.
#[verifier::external_body]
pub(crate) fn read_member(data: &[u8], k: usize) -> (m: Option<(String, Vec<u8>)>)
    ensures
        m is Some == member_at(data@, k as nat) is Some,
        m is Some ==> (m->Some_0.0@, m->Some_0.1@) == member_at(data@, k as nat)->Some_0,
{
    let archive = ArchiveFile::parse(data).ok()?;
    let member = archive.members().nth(k)?.ok()?;
    Some((std::str::from_utf8(member.name()).ok()?.to_string(), member.data(data).ok()?.to_vec()))
}

/// What stands at index 0 of the sections: the null section.
pub open spec fn null_section() -> InputSectionView {
    InputSectionView {
        name: Seq::empty(),
        data: Seq::empty(),
        size: 0,
        flags: 0,
        is_bss: false,
        relocations: Seq::empty(),
    }
}

/// What stands at index 0 of the symbols: the null symbol.
pub open spec fn null_symbol() -> InputSymbolView {
    InputSymbolView {
        name: Seq::empty(),
        kind: InputSymbolKind::Other,
        place: SymbolPlace::Undefined,
        address: 0,
        is_global: false,
    }
}

/// `acc`, followed by the relocations of the section `i` from index `j` on;
/// `None` where the reader fails on one.
pub open spec fn relocations_from(data: Seq<u8>, i: nat, j: int, acc: Seq<InputRelocation>)
    -> Option<Seq<InputRelocation>>
    decreases relocation_total(data, i) - j,
{
    if j < 0 || j >= relocation_total(data, i) {
        Some(acc)
    } else {
        match relocation_at(data, i, j as nat) {
            None => None,
            Some(r) => relocations_from(data, i, j + 1, acc.push(r)),
        }
    }
}

/// The section of index `i` with its relocations.
pub open spec fn whole_section(data: Seq<u8>, i: nat) -> Option<InputSectionView> {
    if i == 0 {
        Some(null_section())
    } else {
        match section_at(data, i) {
            None => None,
            Some(s) => match relocations_from(data, i, 0, Seq::empty()) {
                None => None,
                Some(relocations) => Some(InputSectionView { relocations, ..s }),
            },
        }
    }
}

/// `acc`, followed by the sections from index `i` on.
pub open spec fn sections_from(data: Seq<u8>, i: int, acc: Seq<InputSectionView>) -> Option<
    Seq<InputSectionView>,
>
    decreases section_total(data) - i,
{
    if i < 0 || i >= section_total(data) {
        Some(acc)
    } else {
        match whole_section(data, i as nat) {
            None => None,
            Some(s) => sections_from(data, i + 1, acc.push(s)),
        }
    }
}

/// The symbol of index `k` of the symbol table, or of the dynamic one.
pub open spec fn whole_symbol(data: Seq<u8>, dynamic: bool, k: nat) -> Option<InputSymbolView> {
    if k == 0 {
        Some(null_symbol())
    } else if dynamic {
        dynamic_symbol_at(data, k)
    } else {
        symbol_at(data, k)
    }
}

/// The number of symbols of the symbol table, or of the dynamic one.
pub open spec fn whole_symbol_total(data: Seq<u8>, dynamic: bool) -> nat {
    if dynamic {
        dynamic_symbol_total(data)
    } else {
        symbol_total(data)
    }
}

/// `acc`, followed by the symbols from index `k` on.
pub open spec fn symbols_from(data: Seq<u8>, dynamic: bool, k: int, acc: Seq<InputSymbolView>)
    -> Option<Seq<InputSymbolView>>
    decreases whole_symbol_total(data, dynamic) - k,
{
    if k < 0 || k >= whole_symbol_total(data, dynamic) {
        Some(acc)
    } else {
        match whole_symbol(data, dynamic, k as nat) {
            None => None,
            Some(s) => symbols_from(data, dynamic, k + 1, acc.push(s)),
        }
    }
}

/// What the reader finds in the file `name` with the bytes `data`. The file
/// must be a little-endian ELF-64 file for x86-64. Of a shared object only
/// the dynamic symbols are read; of any other file, the sections with their
/// relocations, and the symbols.
pub open spec fn object_of(name: Seq<char>, data: Seq<u8>) -> Result<
    InputObjectView,
    LinkErrorView,
> {
    match format_of(data) {
        Format::Malformed => Err(LinkErrorView::Malformed(name)),
        Format::Other => Err(LinkErrorView::Unsupported(name)),
        Format::Elf64 => if !little_endian_of(data) || !x86_64_of(data) {
            Err(LinkErrorView::Unsupported(name))
        } else if shared_of(data) {
            match symbols_from(data, true, 0, Seq::empty()) {
                None => Err(LinkErrorView::Malformed(name)),
                Some(dynamic_symbols) => Ok(
                    InputObjectView {
                        name,
                        is_dynamic: true,
                        sections: Seq::empty(),
                        symbols: Seq::empty(),
                        dynamic_symbols,
                    },
                ),
            }
        } else {
            match sections_from(data, 0, Seq::empty()) {
                None => Err(LinkErrorView::Malformed(name)),
                Some(sections) => match symbols_from(data, false, 0, Seq::empty()) {
                    None => Err(LinkErrorView::Malformed(name)),
                    Some(symbols) => Ok(
                        InputObjectView {
                            name,
                            is_dynamic: false,
                            sections,
                            symbols,
                            dynamic_symbols: Seq::empty(),
                        },
                    ),
                },
            }
        },
    }
}

/// Reads the section of index `i` with its relocations.
fn read_whole_section(data: &[u8], i: usize) -> (s: Option<InputSection>)
    requires
        format_of(data@) == Format::Elf64,
    ensures
        option_view(s) == whole_section(data@, i as nat),
{
    if i == 0 {
        return Some(
            InputSection {
                name: String::new(),
                data: Vec::new(),
                size: 0,
                flags: 0,
                is_bss: false,
                relocations: Vec::new(),
            },
        );
    }
    let mut section = match read_section(data, i) {
        None => {
            return None;
        },
        Some(s) => s,
    };
    let ghost bare = section@;
    let n = relocation_count(data, i);
    let mut relocations: Vec<InputRelocation> = Vec::new();
    let mut j: usize = 0;
    while j < n
        invariant
            j <= n,
            n == relocation_total(data@, i as nat),
            format_of(data@) == Format::Elf64,
            i > 0,
            section_at(data@, i as nat) == Some(bare),
            relocations_from(data@, i as nat, 0, Seq::empty()) == relocations_from(
                data@,
                i as nat,
                j as int,
                relocations@,
            ),
        decreases n - j,
    {
        match read_relocation(data, i, j) {
            None => {
                return None;
            },
            Some(r) => {
                relocations.push(r);
            },
        }
        j += 1;
    }
    section.relocations = relocations;
    Some(section)
}

/// Reads all sections of an object.
fn read_sections(data: &[u8]) -> (r: Option<Vec<InputSection>>)
    requires
        format_of(data@) == Format::Elf64,
    ensures
        r is Some == sections_from(data@, 0, Seq::empty()) is Some,
        r is Some ==> views(r->Some_0@) == sections_from(data@, 0, Seq::empty())->Some_0,
{
    let n = section_count(data);
    let mut sections: Vec<InputSection> = Vec::new();
    let mut i: usize = 0;
    assert(views(sections@) =~= Seq::<InputSectionView>::empty());
    while i < n
        invariant
            i <= n,
            n == section_total(data@),
            format_of(data@) == Format::Elf64,
            sections_from(data@, 0, Seq::empty()) == sections_from(
                data@,
                i as int,
                views(sections@),
            ),
        decreases n - i,
    {
        match read_whole_section(data, i) {
            None => {
                return None;
            },
            Some(s) => {
                proof {
                    lemma_views_push(sections@, s);
                }
                sections.push(s);
            },
        }
        i += 1;
    }
    Some(sections)
}

/// Reads all symbols of the symbol table, or of the dynamic one.
fn read_symbols(data: &[u8], dynamic: bool) -> (r: Option<Vec<InputSymbol>>)
    requires
        format_of(data@) == Format::Elf64,
    ensures
        r is Some == symbols_from(data@, dynamic, 0, Seq::empty()) is Some,
        r is Some ==> views(r->Some_0@) == symbols_from(data@, dynamic, 0, Seq::empty())->Some_0,
{
    let n = if dynamic {
        dynamic_symbol_count(data)
    } else {
        symbol_count(data)
    };
    let mut symbols: Vec<InputSymbol> = Vec::new();
    let mut k: usize = 0;
    assert(views(symbols@) =~= Seq::<InputSymbolView>::empty());
    while k < n
        invariant
            k <= n,
            n == whole_symbol_total(data@, dynamic),
            format_of(data@) == Format::Elf64,
            symbols_from(data@, dynamic, 0, Seq::empty()) == symbols_from(
                data@,
                dynamic,
                k as int,
                views(symbols@),
            ),
        decreases n - k,
    {
        let symbol = if k == 0 {
            Some(
                InputSymbol {
                    name: String::new(),
                    kind: InputSymbolKind::Other,
                    place: SymbolPlace::Undefined,
                    address: 0,
                    is_global: false,
                },
            )
        } else if dynamic {
            read_dynamic_symbol(data, k)
        } else {
            read_symbol(data, k)
        };
        match symbol {
            None => {
                return None;
            },
            Some(s) => {
                proof {
                    lemma_views_push(symbols@, s);
                }
                symbols.push(s);
            },
        }
        k += 1;
    }
    Some(symbols)
}

/// The view of the result of reading an object.
pub open spec fn read_view(r: Result<InputObject, LinkError>) -> Result<
    InputObjectView,
    LinkErrorView,
> {
    match r {
        Ok(o) => Ok(o@),
        Err(e) => Err(e@),
    }
}

/// Reads one input object from the bytes of its file.
pub fn read_object(name: &str, data: &[u8]) -> (r: Result<InputObject, LinkError>)
    ensures
        read_view(r) == object_of(name@, data@),
{
    match file_format(data) {
        Format::Malformed => {
            return Err(LinkError::Malformed(String::from_str(name)));
        },
        Format::Other => {
            return Err(LinkError::Unsupported(String::from_str(name)));
        },
        Format::Elf64 => {},
    }
    if !is_little_endian(data) || !is_x86_64(data) {
        return Err(LinkError::Unsupported(String::from_str(name)));
    }
    if is_shared(data) {
        match read_symbols(data, true) {
            None => Err(LinkError::Malformed(String::from_str(name))),
            Some(dynamic_symbols) => {
                let object = InputObject {
                    name: String::from_str(name),
                    is_dynamic: true,
                    sections: Vec::new(),
                    symbols: Vec::new(),
                    dynamic_symbols,
                };
                assert(object@.sections =~= Seq::<InputSectionView>::empty());
                assert(object@.symbols =~= Seq::<InputSymbolView>::empty());
                Ok(object)
            },
        }
    } else {
        let sections = match read_sections(data) {
            None => {
                return Err(LinkError::Malformed(String::from_str(name)));
            },
            Some(s) => s,
        };
        match read_symbols(data, false) {
            None => Err(LinkError::Malformed(String::from_str(name))),
            Some(symbols) => {
                let object = InputObject {
                    name: String::from_str(name),
                    is_dynamic: false,
                    sections,
                    symbols,
                    dynamic_symbols: Vec::new(),
                };
                assert(object@.dynamic_symbols =~= Seq::<InputSymbolView>::empty());
                Ok(object)
            },
        }
    }
}

} // verus!
