//! What the output file holds besides the contents of its sections: the
//! values of its headers and the records of its tables, computed from the
//! state of the linker.

use crate::dynamic::{build_dynamic_table, dynamic_table, DynamicEntry, DynamicInfo};
use crate::hash::{gnu_hash, gnu_hash_of, name_bytes, sysv_hash, sysv_hash_of};
use crate::link::Linker;
use crate::lookup::{find_section, find_symbol, position, section_names, symbol_names};
use crate::model::{
    DynamicSymbol, LinkError, LinkErrorView, OutputRelocationSection, OutputSection, SectionView,
    Symbol, SymbolView,
};
use crate::relocate::{address_map, section_address};
use crate::symtab::{binding_info, order_symbols, symtab_order};
use crate::text::{same_text, views};
use crate::writer::{FileHeader, ProgramHeader, SectionHeader, Sym};
use object::write::StringId;
use vstd::prelude::*;
use vstd::string::*;

verus! {

pub const ET_EXEC: u16 = 2;

pub const ET_DYN: u16 = 3;

pub const EM_X86_64: u16 = 62;

pub const PT_LOAD: u32 = 1;

pub const PT_DYNAMIC: u32 = 2;

pub const PT_INTERP: u32 = 3;

pub const SHT_PROGBITS: u32 = 1;

pub const SHT_RELA: u32 = 4;

pub const SHT_NOBITS: u32 = 8;

/// The address of the symbol called `name`: the address of its section plus
/// its offset, in 64 bits.
pub open spec fn symbol_address(
    symbols: Seq<SymbolView>,
    addresses: Map<Seq<char>, u64>,
    name: Seq<char>,
    missing: LinkErrorView,
) -> Result<u64, LinkErrorView> {
    let p = position(symbol_names(symbols), name);
    if p >= symbols.len() {
        Err(missing)
    } else if !addresses.dom().contains(symbols[p].section_name) {
        Err(LinkErrorView::Undefined(symbols[p].section_name))
    } else {
        Ok(addresses[symbols[p].section_name].wrapping_add(symbols[p].offset))
    }
}

/// The entry point: 0 for a shared object, the address of `_start` for an
/// executable.
pub open spec fn entry_point(
    shared: bool,
    symbols: Seq<SymbolView>,
    addresses: Map<Seq<char>, u64>,
) -> Result<u64, LinkErrorView> {
    if shared {
        Ok(0)
    } else {
        symbol_address(symbols, addresses, "_start"@, LinkErrorView::MissingEntry)
    }
}

/// The file header: an executable or a shared object, for x86-64.
pub open spec fn file_header(shared: bool, entry: u64) -> FileHeader {
    FileHeader {
        os_abi: 0,
        abi_version: 0,
        e_type: if shared {
            ET_DYN
        } else {
            ET_EXEC
        },
        e_machine: EM_X86_64,
        e_entry: entry,
        e_flags: 0,
    }
}

/// The program header that loads the whole file, readable, writable and
/// executable.
pub open spec fn load_header(load: u64, file_size: u64) -> ProgramHeader {
    ProgramHeader {
        p_type: PT_LOAD,
        p_flags: 7,
        p_offset: 0,
        p_vaddr: load,
        p_paddr: load,
        p_filesz: file_size,
        p_memsz: file_size,
        p_align: 4096,
    }
}

/// The program header of the dynamic section.
pub open spec fn dynamic_program_header(load: u64, offset: u64, entries: u64) -> ProgramHeader {
    ProgramHeader {
        p_type: PT_DYNAMIC,
        p_flags: 6,
        p_offset: offset,
        p_vaddr: offset.wrapping_add(load),
        p_paddr: offset.wrapping_add(load),
        p_filesz: entries.wrapping_mul(16),
        p_memsz: entries.wrapping_mul(16),
        p_align: 8,
    }
}

/// The program header that points at the path of the dynamic linker.
pub open spec fn interp_header(offset: u64, address: u64, size: u64) -> ProgramHeader {
    ProgramHeader {
        p_type: PT_INTERP,
        p_flags: 4,
        p_offset: offset,
        p_vaddr: address,
        p_paddr: address,
        p_filesz: size,
        p_memsz: size,
        p_align: 1,
    }
}

/// The program header of `.interp`, where the output has that section and
/// its address.
pub open spec fn interp_of(sections: Seq<SectionView>, addresses: Map<Seq<char>, u64>) -> Result<
    ProgramHeader,
    LinkErrorView,
> {
    let p = position(section_names(sections), ".interp"@);
    if p >= sections.len() || !addresses.dom().contains(".interp"@) {
        Err(LinkErrorView::Undefined(".interp"@))
    } else {
        Ok(
            interp_header(
                sections[p].offset,
                addresses[".interp"@],
                sections[p].content.len() as u64,
            ),
        )
    }
}

impl Linker {
    /// The addresses of the sections, as a map.
    pub open spec fn addresses(&self) -> Map<Seq<char>, u64> {
        address_map(views(self.section_address@))
    }

    /// The program headers of the output whose file is `file_size` bytes
    /// long: one that loads the file, one for the dynamic section where there
    /// is one, one for `.interp` where the output is an executable that
    /// imports from shared objects.
    pub open spec fn program_headers_of(&self, file_size: u64) -> Result<
        Seq<ProgramHeader>,
        LinkErrorView,
    > {
        let first = seq![load_header(self.load_address, file_size)];
        let second = if self.opt.shared || self.dynamic_link {
            first.push(
                dynamic_program_header(
                    self.load_address,
                    self.dynamic_section_offset,
                    self.dynamic_entries_count as u64,
                ),
            )
        } else {
            first
        };
        if !self.opt.shared && self.dynamic_link {
            match interp_of(views(self.output_sections@), self.addresses()) {
                Err(e) => Err(e),
                Ok(h) => Ok(second.push(h)),
            }
        } else {
            Ok(second)
        }
    }

    /// Looks up the address of the symbol called `name`.
    pub fn address_of_symbol(&self, name: &str, missing: LinkError) -> (res: Result<
        u64,
        LinkError,
    >)
        ensures
            match symbol_address(views(self.symbols@), self.addresses(), name@, missing@) {
                Ok(a) => res is Ok && res->Ok_0 == a,
                Err(e) => res is Err && res->Err_0@ == e,
            },
    {
        let p = find_symbol(&self.symbols, name);
        if p >= self.symbols.len() {
            return Err(missing);
        }
        let symbol = &self.symbols[p];
        assert(views(self.symbols@)[p as int] == symbol@);
        match section_address(&self.section_address, symbol.section_name.as_str()) {
            None => Err(LinkError::Undefined(symbol.section_name.clone())),
            Some(base) => Ok(base.wrapping_add(symbol.offset)),
        }
    }

    /// Computes the file header.
    pub fn make_file_header(&self) -> (res: Result<FileHeader, LinkError>)
        ensures
            match entry_point(self.opt.shared, views(self.symbols@), self.addresses()) {
                Ok(entry) => res is Ok && res->Ok_0 == file_header(self.opt.shared, entry),
                Err(e) => res is Err && res->Err_0@ == e,
            },
    {
        let entry = if self.opt.shared {
            0
        } else {
            match self.address_of_symbol("_start", LinkError::MissingEntry) {
                Err(e) => {
                    return Err(e);
                },
                Ok(a) => a,
            }
        };
        Ok(
            FileHeader {
                os_abi: 0,
                abi_version: 0,
                e_type: if self.opt.shared {
                    ET_DYN
                } else {
                    ET_EXEC
                },
                e_machine: EM_X86_64,
                e_entry: entry,
                e_flags: 0,
            },
        )
    }

    /// Computes the program headers of the output whose file is `file_size`
    /// bytes long.
    pub fn make_program_headers(&self, file_size: u64) -> (res: Result<
        Vec<ProgramHeader>,
        LinkError,
    >)
        ensures
            match self.program_headers_of(file_size) {
                Ok(h) => res is Ok && res->Ok_0@ == h,
                Err(e) => res is Err && res->Err_0@ == e,
            },
    {
        let mut headers: Vec<ProgramHeader> = Vec::new();
        headers.push(
            ProgramHeader {
                p_type: PT_LOAD,
                p_flags: 7,
                p_offset: 0,
                p_vaddr: self.load_address,
                p_paddr: self.load_address,
                p_filesz: file_size,
                p_memsz: file_size,
                p_align: 4096,
            },
        );
        assert(headers@ =~= seq![load_header(self.load_address, file_size)]);
        if self.opt.shared || self.dynamic_link {
            let address = self.dynamic_section_offset.wrapping_add(self.load_address);
            let size = (self.dynamic_entries_count as u64).wrapping_mul(16);
            headers.push(
                ProgramHeader {
                    p_type: PT_DYNAMIC,
                    p_flags: 6,
                    p_offset: self.dynamic_section_offset,
                    p_vaddr: address,
                    p_paddr: address,
                    p_filesz: size,
                    p_memsz: size,
                    p_align: 8,
                },
            );
        }
        if !self.opt.shared && self.dynamic_link {
            let p = find_section(&self.output_sections, ".interp");
            let address = section_address(&self.section_address, ".interp");
            if p >= self.output_sections.len() || address.is_none() {
                return Err(LinkError::Undefined(String::from_str(".interp")));
            }
            let section = &self.output_sections[p];
            assert(views(self.output_sections@)[p as int] == section@);
            let size = section.content.len() as u64;
            headers.push(
                ProgramHeader {
                    p_type: PT_INTERP,
                    p_flags: 4,
                    p_offset: section.offset,
                    p_vaddr: address.unwrap(),
                    p_paddr: address.unwrap(),
                    p_filesz: size,
                    p_memsz: size,
                    p_align: 1,
                },
            );
        }
        Ok(headers)
    }
}

/// The flags of the header of an output section: allocated, and executable
/// or writable where the section is.
pub open spec fn output_flags(is_executable: bool, is_writable: bool) -> u64 {
    (2 + (if is_executable {
        4int
    } else {
        0
    }) + (if is_writable {
        1int
    } else {
        0
    })) as u64
}

/// The header of an output section at the address `address`.
pub open spec fn output_header(s: OutputSection, address: u64) -> SectionHeader {
    SectionHeader {
        name: s.name_string_id,
        sh_type: if s.is_bss {
            SHT_NOBITS
        } else {
            SHT_PROGBITS
        },
        sh_flags: output_flags(s.is_executable, s.is_writable),
        sh_addr: address,
        sh_offset: s.offset,
        sh_size: s.content@.len() as u64,
        sh_link: 0,
        sh_info: 0,
        sh_addralign: 1,
        sh_entsize: 0,
    }
}

/// The header of a section of dynamic relocations: it is linked to `.dynsym`
/// and applies to `.got.plt`.
pub open spec fn rela_header(r: OutputRelocationSection, address: u64, link: u32, info: u32)
    -> SectionHeader {
    SectionHeader {
        name: r.name_string_id,
        sh_type: SHT_RELA,
        sh_flags: 0x42,
        sh_addr: address,
        sh_offset: r.offset,
        sh_size: (r.relocations@.len() as u64).wrapping_mul(24),
        sh_link: link,
        sh_info: info,
        sh_addralign: 8,
        sh_entsize: 24,
    }
}

/// `acc`, followed by the headers of the output sections from index `i` on.
pub open spec fn output_headers_from(
    sections: Seq<OutputSection>,
    addresses: Map<Seq<char>, u64>,
    i: int,
    acc: Seq<SectionHeader>,
) -> Result<Seq<SectionHeader>, LinkErrorView>
    decreases sections.len() - i,
{
    if i < 0 || i >= sections.len() {
        Ok(acc)
    } else if !addresses.dom().contains(sections[i].name@) {
        Err(LinkErrorView::Undefined(sections[i].name@))
    } else {
        output_headers_from(
            sections,
            addresses,
            i + 1,
            acc.push(output_header(sections[i], addresses[sections[i].name@])),
        )
    }
}

/// The section index of the output section called `name`.
pub open spec fn index_of_section(sections: Seq<OutputSection>, name: Seq<char>) -> Result<
    Option<u32>,
    LinkErrorView,
> {
    let p = position(section_names(views(sections)), name);
    if p >= sections.len() {
        Err(LinkErrorView::Undefined(name))
    } else {
        Ok(sections[p].section_index)
    }
}

/// The section index of `.got.plt`.
pub open spec fn got_index(sections: Seq<OutputSection>) -> Result<u32, LinkErrorView> {
    match index_of_section(sections, ".got.plt"@) {
        Err(e) => Err(e),
        Ok(None) => Err(LinkErrorView::Undefined(".got.plt"@)),
        Ok(Some(index)) => Ok(index),
    }
}

/// `acc`, followed by the headers of the sections of dynamic relocations
/// from index `i` on.
pub open spec fn rela_headers_from(
    relas: Seq<OutputRelocationSection>,
    sections: Seq<OutputSection>,
    addresses: Map<Seq<char>, u64>,
    link: u32,
    i: int,
    acc: Seq<SectionHeader>,
) -> Result<Seq<SectionHeader>, LinkErrorView>
    decreases relas.len() - i,
{
    if i < 0 || i >= relas.len() {
        Ok(acc)
    } else if !addresses.dom().contains(relas[i].name@) {
        Err(LinkErrorView::Undefined(relas[i].name@))
    } else {
        match got_index(sections) {
            Err(e) => Err(e),
            Ok(info) => rela_headers_from(
                relas,
                sections,
                addresses,
                link,
                i + 1,
                acc.push(rela_header(relas[i], addresses[relas[i].name@], link, info)),
            ),
        }
    }
}

/// Looks up the section index of the output section called `name`.
pub fn section_index(sections: &Vec<OutputSection>, name: &str) -> (res: Result<
    Option<u32>,
    LinkError,
>)
    ensures
        match index_of_section(sections@, name@) {
            Ok(i) => res is Ok && res->Ok_0 == i,
            Err(e) => res is Err && res->Err_0@ == e,
        },
{
    let p = find_section(sections, name);
    if p >= sections.len() {
        Err(LinkError::Undefined(String::from_str(name)))
    } else {
        Ok(sections[p].section_index)
    }
}

impl Linker {
    /// The headers of the output sections and of the sections of dynamic
    /// relocations, in the order of the section header table.
    pub open spec fn section_headers_of(&self) -> Result<Seq<SectionHeader>, LinkErrorView> {
        match output_headers_from(self.output_sections@, self.addresses(), 0, Seq::empty()) {
            Err(e) => Err(e),
            Ok(headers) => rela_headers_from(
                self.output_relocations@,
                self.output_sections@,
                self.addresses(),
                self.dynsym_section_index,
                0,
                headers,
            ),
        }
    }

    /// Computes the headers of the output sections and of the sections of
    /// dynamic relocations.
    pub fn make_section_headers(&self) -> (res: Result<Vec<SectionHeader>, LinkError>)
        ensures
            match self.section_headers_of() {
                Ok(h) => res is Ok && res->Ok_0@ == h,
                Err(e) => res is Err && res->Err_0@ == e,
            },
            res is Ok ==> {
                &&& res->Ok_0@.len() == self.output_sections@.len()
                    + self.output_relocations@.len()
                &&& forall|i: int|
                    0 <= i < self.output_sections@.len() ==> (#[trigger] res->Ok_0@[i]).name
                        == self.output_sections@[i].name_string_id
                &&& forall|j: int|
                    0 <= j < self.output_relocations@.len() ==> (#[trigger] res->Ok_0@[
                        self.output_sections@.len() + j
                    ]).name == self.output_relocations@[j].name_string_id
            },
    {
        let ghost map = self.addresses();
        let mut headers: Vec<SectionHeader> = Vec::new();
        let n = self.output_sections.len();
        let mut i: usize = 0;
        while i < n
            invariant
                i <= n,
                n == self.output_sections@.len(),
                map == self.addresses(),
                headers@.len() == i,
                forall|k: int|
                    0 <= k < i ==> (#[trigger] headers@[k]).name
                        == self.output_sections@[k].name_string_id,
                output_headers_from(self.output_sections@, map, 0, Seq::empty())
                    == output_headers_from(self.output_sections@, map, i as int, headers@),
            decreases n - i,
        {
            let section = &self.output_sections[i];
            let address = match section_address(&self.section_address, section.name.as_str()) {
                None => {
                    return Err(LinkError::Undefined(section.name.clone()));
                },
                Some(a) => a,
            };
            let mut flags: u64 = 2;
            if section.is_executable {
                flags += 4;
            }
            if section.is_writable {
                flags += 1;
            }
            headers.push(
                SectionHeader {
                    name: section.name_string_id,
                    sh_type: if section.is_bss {
                        SHT_NOBITS
                    } else {
                        SHT_PROGBITS
                    },
                    sh_flags: flags,
                    sh_addr: address,
                    sh_offset: section.offset,
                    sh_size: section.content.len() as u64,
                    sh_link: 0,
                    sh_info: 0,
                    sh_addralign: 1,
                    sh_entsize: 0,
                },
            );
            i += 1;
        }
        let ghost first = headers@;
        let m = self.output_relocations.len();
        let mut j: usize = 0;
        while j < m
            invariant
                j <= m,
                m == self.output_relocations@.len(),
                n == self.output_sections@.len(),
                map == self.addresses(),
                headers@.len() == n + j,
                output_headers_from(self.output_sections@, map, 0, Seq::empty()) == Ok::<
                    Seq<SectionHeader>,
                    LinkErrorView,
                >(first),
                forall|k: int|
                    0 <= k < n ==> (#[trigger] headers@[k]).name
                        == self.output_sections@[k].name_string_id,
                forall|k: int|
                    0 <= k < j ==> (#[trigger] headers@[n + k]).name
                        == self.output_relocations@[k].name_string_id,
                rela_headers_from(
                    self.output_relocations@,
                    self.output_sections@,
                    map,
                    self.dynsym_section_index,
                    0,
                    first,
                ) == rela_headers_from(
                    self.output_relocations@,
                    self.output_sections@,
                    map,
                    self.dynsym_section_index,
                    j as int,
                    headers@,
                ),
            decreases m - j,
        {
            let rela = &self.output_relocations[j];
            let address = match section_address(&self.section_address, rela.name.as_str()) {
                None => {
                    return Err(LinkError::Undefined(rela.name.clone()));
                },
                Some(a) => a,
            };
            let info = match section_index(&self.output_sections, ".got.plt") {
                Err(e) => {
                    return Err(e);
                },
                Ok(None) => {
                    return Err(LinkError::Undefined(String::from_str(".got.plt")));
                },
                Ok(Some(index)) => index,
            };
            headers.push(
                SectionHeader {
                    name: rela.name_string_id,
                    sh_type: SHT_RELA,
                    sh_flags: 0x42,
                    sh_addr: address,
                    sh_offset: rela.offset,
                    sh_size: (rela.relocations.len() as u64).wrapping_mul(24),
                    sh_link: self.dynsym_section_index,
                    sh_info: info,
                    sh_addralign: 8,
                    sh_entsize: 24,
                },
            );
            j += 1;
        }
        Ok(headers)
    }

    /// The record of a symbol in `.symtab`. A stub of the linkage table is
    /// written as an undefined symbol of value 0; any other symbol lies in
    /// the section of its name, `_DYNAMIC` in `.dynamic`, at its address.
    pub open spec fn static_record(&self, s: Symbol) -> Result<Sym, LinkErrorView> {
        if !self.addresses().dom().contains(s.section_name@) {
            Err(LinkErrorView::Undefined(s.section_name@))
        } else {
            let address = self.addresses()[s.section_name@].wrapping_add(s.offset);
            let section = if s.is_plt {
                Ok(None)
            } else if s.section_name@ == ".dynamic"@ {
                Ok(Some(self.dynamic_section_index))
            } else {
                index_of_section(self.output_sections@, s.section_name@)
            };
            match section {
                Err(e) => Err(e),
                Ok(section) => Ok(
                    Sym {
                        name: s.symbol_name_string_id,
                        section,
                        st_info: binding_info(s.is_global),
                        st_other: 0,
                        st_shndx: 0,
                        st_value: if s.is_plt {
                            0
                        } else {
                            address
                        },
                        st_size: 0,
                    },
                ),
            }
        }
    }

    /// `acc`, followed by the records of the symbols in the order `order`
    /// from position `i` on.
    pub open spec fn static_records_from(&self, order: Seq<int>, i: int, acc: Seq<Sym>) -> Result<
        Seq<Sym>,
        LinkErrorView,
    >
        decreases order.len() - i,
    {
        if i < 0 || i >= order.len() {
            Ok(acc)
        } else {
            match self.static_record(self.symbols@[order[i]]) {
                Err(e) => Err(e),
                Ok(r) => self.static_records_from(order, i + 1, acc.push(r)),
            }
        }
    }

    /// The records of `.symtab` behind the null symbol: the local symbols,
    /// then the global ones.
    pub open spec fn static_records(&self) -> Result<Seq<Sym>, LinkErrorView> {
        self.static_records_from(symtab_order(views(self.symbols@)), 0, Seq::empty())
    }

    /// Computes the record of a symbol in `.symtab`.
    pub fn make_static_record(&self, s: &Symbol) -> (res: Result<Sym, LinkError>)
        ensures
            match self.static_record(*s) {
                Ok(r) => res is Ok && res->Ok_0 == r,
                Err(e) => res is Err && res->Err_0@ == e,
            },
    {
        let address = match section_address(&self.section_address, s.section_name.as_str()) {
            None => {
                return Err(LinkError::Undefined(s.section_name.clone()));
            },
            Some(base) => base.wrapping_add(s.offset),
        };
        let section = if s.is_plt {
            None
        } else if same_text(s.section_name.as_str(), ".dynamic") {
            Some(self.dynamic_section_index)
        } else {
            match section_index(&self.output_sections, s.section_name.as_str()) {
                Err(e) => {
                    return Err(e);
                },
                Ok(index) => index,
            }
        };
        Ok(
            Sym {
                name: s.symbol_name_string_id,
                section,
                st_info: if s.is_global {
                    16
                } else {
                    0
                },
                st_other: 0,
                st_shndx: 0,
                st_value: if s.is_plt {
                    0
                } else {
                    address
                },
                st_size: 0,
            },
        )
    }

    /// Computes the records of `.symtab` behind the null symbol.
    pub fn make_static_records(&self) -> (res: Result<Vec<Sym>, LinkError>)
        ensures
            match self.static_records() {
                Ok(r) => res is Ok && res->Ok_0@ == r,
                Err(e) => res is Err && res->Err_0@ == e,
            },
            res is Ok ==> res->Ok_0@.len() == self.symbols@.len(),
    {
        let order = order_symbols(&self.symbols);
        let ghost wanted = symtab_order(views(self.symbols@));
        proof {
            crate::symtab::lemma_locals_first(views(self.symbols@));
        }
        let mut records: Vec<Sym> = Vec::new();
        let n = order.len();
        let mut i: usize = 0;
        while i < n
            invariant
                i <= n,
                n == order@.len(),
                n == wanted.len(),
                records@.len() == i,
                wanted == symtab_order(views(self.symbols@)),
                forall|k: int| 0 <= k < n ==> order@[k] as int == wanted[k],
                forall|k: int| 0 <= k < n ==> order@[k] < self.symbols@.len(),
                self.static_records_from(wanted, 0, Seq::empty()) == self.static_records_from(
                    wanted,
                    i as int,
                    records@,
                ),
            decreases n - i,
        {
            match self.make_static_record(&self.symbols[order[i]]) {
                Err(e) => {
                    return Err(e);
                },
                Ok(r) => {
                    records.push(r);
                },
            }
            i += 1;
        }
        Ok(records)
    }

    /// The record of the dynamic symbol called `name` in `.dynsym`: a global
    /// symbol, undefined and of value 0 where it is imported.
    pub open spec fn dynamic_record(&self, name: Seq<char>) -> Result<Sym, LinkErrorView> {
        let p = position(symbol_names(views(self.symbols@)), name);
        if p >= self.symbols@.len() {
            Err(LinkErrorView::Bug)
        } else {
            let s = self.symbols@[p];
            if !self.addresses().dom().contains(s.section_name@) {
                Err(LinkErrorView::Undefined(s.section_name@))
            } else {
                let address = self.addresses()[s.section_name@].wrapping_add(s.offset);
                let section = if s.is_plt {
                    Ok(None)
                } else {
                    index_of_section(self.output_sections@, s.section_name@)
                };
                match section {
                    Err(e) => Err(e),
                    Ok(section) => Ok(
                        Sym {
                            name: s.symbol_name_dynamic_string_id,
                            section,
                            st_info: 16,
                            st_other: 0,
                            st_shndx: 0,
                            st_value: if s.is_plt {
                                0
                            } else {
                                address
                            },
                            st_size: 0,
                        },
                    ),
                }
            }
        }
    }

    /// `acc`, followed by the records of the dynamic symbols of `list` from
    /// index `i` on.
    pub open spec fn dynamic_records_from(&self, list: Seq<DynamicSymbol>, i: int, acc: Seq<Sym>)
        -> Result<Seq<Sym>, LinkErrorView>
        decreases list.len() - i,
    {
        if i < 0 || i >= list.len() {
            Ok(acc)
        } else {
            match self.dynamic_record(list[i].name@) {
                Err(e) => Err(e),
                Ok(r) => self.dynamic_records_from(list, i + 1, acc.push(r)),
            }
        }
    }

    /// The records of `.dynsym` behind the null symbol: the imports, then
    /// the exports.
    pub open spec fn dynamic_records(&self) -> Result<Seq<Sym>, LinkErrorView> {
        match self.dynamic_records_from(self.plt_dynamic_symbols@, 0, Seq::empty()) {
            Err(e) => Err(e),
            Ok(imports) => self.dynamic_records_from(self.dynamic_symbols@, 0, imports),
        }
    }

    /// Computes the record of the dynamic symbol called `name`.
    pub fn make_dynamic_record(&self, name: &str) -> (res: Result<Sym, LinkError>)
        ensures
            match self.dynamic_record(name@) {
                Ok(r) => res is Ok && res->Ok_0 == r,
                Err(e) => res is Err && res->Err_0@ == e,
            },
            res is Ok ==> exists|p: int|
                0 <= p < self.symbols@.len() && res->Ok_0.name == (
                #[trigger] self.symbols@[p]).symbol_name_dynamic_string_id,
    {
        let p = find_symbol(&self.symbols, name);
        if p >= self.symbols.len() {
            return Err(LinkError::Bug);
        }
        let s = &self.symbols[p];
        let address = match section_address(&self.section_address, s.section_name.as_str()) {
            None => {
                return Err(LinkError::Undefined(s.section_name.clone()));
            },
            Some(base) => base.wrapping_add(s.offset),
        };
        let section = if s.is_plt {
            None
        } else {
            match section_index(&self.output_sections, s.section_name.as_str()) {
                Err(e) => {
                    return Err(e);
                },
                Ok(index) => index,
            }
        };
        Ok(
            Sym {
                name: s.symbol_name_dynamic_string_id,
                section,
                st_info: 16,
                st_other: 0,
                st_shndx: 0,
                st_value: if s.is_plt {
                    0
                } else {
                    address
                },
                st_size: 0,
            },
        )
    }

    /// Appends the records of the dynamic symbols of `list` to `records`.
    pub fn append_dynamic_records(&self, list: &Vec<DynamicSymbol>, records: &mut Vec<Sym>) -> (res:
        Result<(), LinkError>)
        ensures
            match self.dynamic_records_from(list@, 0, old(records)@) {
                Ok(r) => res is Ok && final(records)@ == r,
                Err(e) => res is Err && res->Err_0@ == e,
            },
            res is Ok ==> final(records)@.len() == old(records)@.len() + list@.len(),
    {
        let n = list.len();
        let mut i: usize = 0;
        while i < n
            invariant
                i <= n,
                n == list@.len(),
                records@.len() == old(records)@.len() + i,
                self.dynamic_records_from(list@, 0, old(records)@) == self.dynamic_records_from(
                    list@,
                    i as int,
                    records@,
                ),
            decreases n - i,
        {
            match self.make_dynamic_record(list[i].name.as_str()) {
                Err(e) => {
                    return Err(e);
                },
                Ok(r) => {
                    records.push(r);
                },
            }
            i += 1;
        }
        Ok(())
    }

    /// Computes the records of `.dynsym` behind the null symbol.
    pub fn make_dynamic_records(&self) -> (res: Result<Vec<Sym>, LinkError>)
        ensures
            match self.dynamic_records() {
                Ok(r) => res is Ok && res->Ok_0@ == r,
                Err(e) => res is Err && res->Err_0@ == e,
            },
            res is Ok ==> res->Ok_0@.len() == self.plt_dynamic_symbols@.len()
                + self.dynamic_symbols@.len(),
    {
        let mut records: Vec<Sym> = Vec::new();
        match self.append_dynamic_records(&self.plt_dynamic_symbols, &mut records) {
            Err(e) => {
                return Err(e);
            },
            Ok(()) => {},
        }
        match self.append_dynamic_records(&self.dynamic_symbols, &mut records) {
            Err(e) => {
                return Err(e);
            },
            Ok(()) => {},
        }
        Ok(records)
    }
}

/// The hashes for the System V hash table: none for the null symbol and for
/// the imports, the hash of its name for each export.
pub open spec fn sysv_hashes(imports: nat, exports: Seq<Seq<char>>) -> Seq<Option<u32>> {
    Seq::new(
        1 + imports + exports.len(),
        |i: int|
            if i <= imports {
                None
            } else {
                Some(sysv_hash_of(name_bytes(exports[i - 1 - imports])))
            },
    )
}

/// The hashes for the GNU hash table: the hash of the name of each export.
pub open spec fn gnu_hashes(exports: Seq<Seq<char>>) -> Seq<u32> {
    Seq::new(exports.len(), |i: int| gnu_hash_of(name_bytes(exports[i])))
}

/// Computes the hashes for the System V hash table.
pub fn make_sysv_hashes(imports: usize, exports: &Vec<DynamicSymbol>) -> (hashes: Vec<Option<u32>>)
    ensures
        hashes@ == sysv_hashes(imports as nat, views(exports@)),
{
    let mut hashes: Vec<Option<u32>> = Vec::new();
    hashes.push(None);
    let mut i: usize = 0;
    while i < imports
        invariant
            i <= imports,
            hashes@.len() == 1 + i,
            forall|k: int| 0 <= k < hashes@.len() ==> hashes@[k] is None,
        decreases imports - i,
    {
        hashes.push(None);
        i += 1;
    }
    let n = exports.len();
    let mut j: usize = 0;
    while j < n
        invariant
            j <= n,
            n == exports@.len(),
            hashes@.len() == 1 + imports + j,
            forall|k: int| 0 <= k <= imports ==> hashes@[k] is None,
            forall|k: int|
                0 <= k < j ==> hashes@[1 + imports + k] == Some(
                    sysv_hash_of(name_bytes(exports@[k].name@)),
                ),
        decreases n - j,
    {
        hashes.push(Some(sysv_hash(exports[j].name.as_str().as_bytes())));
        j += 1;
    }
    assert(hashes@ =~= sysv_hashes(imports as nat, views(exports@)));
    hashes
}

/// Computes the hashes for the GNU hash table.
pub fn make_gnu_hashes(exports: &Vec<DynamicSymbol>) -> (hashes: Vec<u32>)
    ensures
        hashes@ == gnu_hashes(views(exports@)),
{
    let mut hashes: Vec<u32> = Vec::new();
    let n = exports.len();
    let mut j: usize = 0;
    while j < n
        invariant
            j <= n,
            n == exports@.len(),
            hashes@.len() == j,
            forall|k: int|
                0 <= k < j ==> hashes@[k] == gnu_hash_of(name_bytes(exports@[k].name@)),
        decreases n - j,
    {
        hashes.push(gnu_hash(exports[j].name.as_str().as_bytes()));
        j += 1;
    }
    assert(hashes@ =~= gnu_hashes(views(exports@)));
    hashes
}

/// The names of the sections of dynamic relocations.
pub open spec fn rela_names(relas: Seq<OutputRelocationSection>) -> Seq<Seq<char>> {
    Seq::new(relas.len(), |i: int| relas[i].name@)
}

/// The index of the section of dynamic relocations called `name`, or their
/// number.
pub fn find_rela(relas: &Vec<OutputRelocationSection>, name: &str) -> (p: usize)
    ensures
        p == position(rela_names(relas@), name@),
        p <= relas@.len(),
{
    let ghost names = rela_names(relas@);
    let n = relas.len();
    let mut i: usize = 0;
    while i < n
        invariant
            i <= n,
            n == relas@.len(),
            names == rela_names(relas@),
            forall|j: int| 0 <= j < i ==> names[j] != name@,
        decreases n - i,
    {
        if same_text(relas[i].name.as_str(), name) {
            proof {
                crate::lookup::lemma_position_is(names, name@, i as int);
            }
            return i;
        }
        i += 1;
    }
    proof {
        crate::lookup::lemma_position_is(names, name@, n as int);
    }
    n
}

/// `acc`, followed by the names in `.dynstr` of the needed shared objects
/// from index `i` on.
pub open spec fn needed_ids_from(needed: Seq<crate::model::Needed>, i: int, acc: Seq<StringId>)
    -> Result<Seq<StringId>, LinkErrorView>
    decreases needed.len() - i,
{
    if i < 0 || i >= needed.len() {
        Ok(acc)
    } else {
        match needed[i].name_string_id {
            None => Err(LinkErrorView::Bug),
            Some(id) => needed_ids_from(needed, i + 1, acc.push(id)),
        }
    }
}

impl Linker {
    /// What the entries of the dynamic table are computed from, `.dynstr`
    /// being `strsz` bytes long. An output that imports from shared objects
    /// must have `.got.plt` and `.rela.plt`.
    pub open spec fn dynamic_info(&self, strsz: u64) -> Result<DynamicInfo, LinkErrorView> {
        let base = DynamicInfo {
            hash_style: self.opt.hash_style,
            hash: self.hash_section_offset.wrapping_add(self.load_address),
            gnu_hash: self.gnu_hash_section_offset.wrapping_add(self.load_address),
            strtab: self.dynstr_section_offset.wrapping_add(self.load_address),
            symtab: self.dynsym_section_offset.wrapping_add(self.load_address),
            strsz,
            soname: self.soname_dynamic_string_index,
            dynamic_link: self.dynamic_link,
            pltgot: 0,
            pltrelsz: 0,
            jmprel: 0,
        };
        if !self.dynamic_link {
            Ok(base)
        } else {
            let relas = self.output_relocations@;
            let p = position(rela_names(relas), ".rela.plt"@);
            if !self.addresses().dom().contains(".got.plt"@) {
                Err(LinkErrorView::Undefined(".got.plt"@))
            } else if p >= relas.len() || !self.addresses().dom().contains(".rela.plt"@) {
                Err(LinkErrorView::Undefined(".rela.plt"@))
            } else {
                Ok(
                    DynamicInfo {
                        pltgot: self.addresses()[".got.plt"@],
                        pltrelsz: (relas[p].relocations@.len() as u64).wrapping_mul(24),
                        jmprel: self.addresses()[".rela.plt"@],
                        ..base
                    },
                )
            }
        }
    }

    /// The dynamic table of the output, `.dynstr` being `strsz` bytes long.
    pub open spec fn dynamic_entries(&self, strsz: u64) -> Result<
        Seq<DynamicEntry>,
        LinkErrorView,
    > {
        match self.dynamic_info(strsz) {
            Err(e) => Err(e),
            Ok(info) => match needed_ids_from(self.needed@, 0, Seq::empty()) {
                Err(e) => Err(e),
                Ok(ids) => Ok(dynamic_table(info, ids)),
            },
        }
    }

    /// Computes what the entries of the dynamic table are computed from.
    pub fn make_dynamic_info(&self, strsz: u64) -> (res: Result<DynamicInfo, LinkError>)
        ensures
            match self.dynamic_info(strsz) {
                Ok(i) => res is Ok && res->Ok_0 == i,
                Err(e) => res is Err && res->Err_0@ == e,
            },
    {
        let mut info = DynamicInfo {
            hash_style: self.opt.hash_style,
            hash: self.hash_section_offset.wrapping_add(self.load_address),
            gnu_hash: self.gnu_hash_section_offset.wrapping_add(self.load_address),
            strtab: self.dynstr_section_offset.wrapping_add(self.load_address),
            symtab: self.dynsym_section_offset.wrapping_add(self.load_address),
            strsz,
            soname: self.soname_dynamic_string_index,
            dynamic_link: self.dynamic_link,
            pltgot: 0,
            pltrelsz: 0,
            jmprel: 0,
        };
        if self.dynamic_link {
            let got = match section_address(&self.section_address, ".got.plt") {
                None => {
                    return Err(LinkError::Undefined(String::from_str(".got.plt")));
                },
                Some(a) => a,
            };
            let p = find_rela(&self.output_relocations, ".rela.plt");
            let rela = section_address(&self.section_address, ".rela.plt");
            if p >= self.output_relocations.len() || rela.is_none() {
                return Err(LinkError::Undefined(String::from_str(".rela.plt")));
            }
            info.pltgot = got;
            info.pltrelsz = (self.output_relocations[p].relocations.len() as u64).wrapping_mul(24);
            info.jmprel = rela.unwrap();
        }
        Ok(info)
    }

    /// Computes the dynamic table of the output.
    pub fn make_dynamic_entries(&self, strsz: u64) -> (res: Result<Vec<DynamicEntry>, LinkError>)
        ensures
            match self.dynamic_entries(strsz) {
                Ok(t) => res is Ok && res->Ok_0@ == t,
                Err(e) => res is Err && res->Err_0@ == e,
            },
            res is Ok ==> {
                &&& res->Ok_0@.len() == crate::dynamic::dynamic_count(
                    self.opt.hash_style,
                    self.soname_dynamic_string_index is Some,
                    self.dynamic_link,
                    self.needed@.len(),
                )
                &&& forall|i: int|
                    0 <= i < res->Ok_0@.len() ==> match (#[trigger] res->Ok_0@[i]).value {
                        crate::dynamic::DynamicValue::Number(_) => true,
                        crate::dynamic::DynamicValue::String(id) => Some(id)
                            == self.soname_dynamic_string_index || exists|k: int|
                            0 <= k < self.needed@.len() && self.needed@[k].name_string_id == Some(
                                id,
                            ),
                    }
            },
    {
        let info = match self.make_dynamic_info(strsz) {
            Err(e) => {
                return Err(e);
            },
            Ok(info) => info,
        };
        let mut ids: Vec<StringId> = Vec::new();
        let n = self.needed.len();
        let mut i: usize = 0;
        while i < n
            invariant
                i <= n,
                n == self.needed@.len(),
                ids@.len() == i,
                self.dynamic_info(strsz) == Ok::<DynamicInfo, LinkErrorView>(info),
                forall|k: int| 0 <= k < i ==> self.needed@[k].name_string_id == Some(ids@[k]),
                needed_ids_from(self.needed@, 0, Seq::empty()) == needed_ids_from(
                    self.needed@,
                    i as int,
                    ids@,
                ),
            decreases n - i,
        {
            match self.needed[i].name_string_id {
                None => {
                    return Err(LinkError::Bug);
                },
                Some(id) => {
                    ids.push(id);
                },
            }
            i += 1;
        }
        let table = build_dynamic_table(&info, &ids);
        proof {
            crate::dynamic::lemma_dynamic_table(info, ids@);
            crate::dynamic::lemma_dynamic_strings(info, ids@);
        }
        Ok(table)
    }
}

} // verus!
