//! The reservation stage of the linker: the plan of the output file, and the
//! stage that carries it out.

use crate::dynamic::dynamic_count;
use crate::hash::name_bytes;
use crate::layout::{
    after_dynamic, after_dynstr, after_dynsym, after_hashes, after_records, after_tables,
    all_defined, bound, clean, content_lens, dynamic_indices, dynamic_name_bytes, dynamic_names_set,
    extends, hashes_fit, lemma_align_up, lemma_names_set_stay, lemma_with_strings,
    lemma_with_strings_extends, limit, name_dynamic_symbols, name_needed, name_relas, name_sections,
    name_soname, name_symbols, needed_name_bytes, placed_at, placed_end, regions_fit, rela_lens,
    rela_name_bytes, reserve_dynamic_indices, reserve_hashes, reserve_header_table, reserve_relas,
    reserve_sections, reserve_static_indices, reserve_tables, same_but_offsets, section_name_bytes,
    sections_named, spells, static_indices, symbol_name_bytes, symbols_kept, symbols_named,
    tables_fit, with_strings, within,
};
use crate::link::Linker;
use crate::model::{
    DynamicSymbol, LinkError, LinkErrorView, Needed, OutputRelocationSection, OutputSection, Symbol,
};
use crate::opt::HashStyle;
use crate::writer::{
    align_up, is_laid_out, require_dynstr, reserve_dynamic, reserve_dynstr, reserve_dynsym,
    reserve_file_header, reserve_null_dynamic_symbol_index, reserve_null_section_index,
    reserve_program_headers, reserved_len, writer_model, WriterModel,
};
use object::write::elf::Writer;
use object::write::StringId;
use typed_arena::Arena;
use vstd::prelude::*;

verus! {

/// The address at which an executable is loaded.
pub const EXECUTABLE_BASE: u64 = 0x400000;

/// What the layout of the output depends on: the kind of output, and the
/// sizes and names of its parts.
pub ghost struct Shape {
    pub shared: bool,
    pub dynamic_link: bool,
    pub hash_style: HashStyle,
    pub section_lens: Seq<nat>,
    pub section_names: Seq<Seq<u8>>,
    pub rela_lens: Seq<nat>,
    pub rela_names: Seq<Seq<u8>>,
    pub symbol_names: Seq<Seq<u8>>,
    pub import_names: Seq<Seq<u8>>,
    pub export_names: Seq<Seq<u8>>,
    /// Every imported and every exported name is in the symbol table.
    pub all_defined: bool,
    pub soname: Option<Seq<u8>>,
    pub needed_names: Seq<Seq<u8>>,
}

impl Shape {
    /// The output has a dynamic section.
    pub open spec fn has_dynamic(self) -> bool {
        self.shared || self.dynamic_link
    }

    /// The output names a dynamic linker.
    pub open spec fn has_interp(self) -> bool {
        !self.shared && self.dynamic_link
    }

    /// The number of program headers: one to load the file, one for the
    /// dynamic section, one for the dynamic linker.
    pub open spec fn program_header_count(self) -> nat {
        1 + (if self.has_dynamic() {
            1nat
        } else {
            0
        }) + (if self.has_interp() {
            1nat
        } else {
            0
        })
    }

    /// The number of entries of the dynamic table.
    pub open spec fn dynamic_entry_count(self) -> nat {
        dynamic_count(
            self.hash_style,
            self.soname is Some,
            self.dynamic_link,
            self.needed_names.len(),
        )
    }

    /// Where the output sections start: behind the file header and the
    /// program headers.
    pub open spec fn headers_end(self) -> nat {
        64 + 56 * self.program_header_count()
    }

    /// Where the output sections end.
    pub open spec fn sections_end(self) -> nat {
        placed_end(self.headers_end(), self.section_lens, 4096, self.section_lens.len() as int)
    }

    /// Where the sections of dynamic relocations end.
    pub open spec fn relas_end(self) -> nat {
        placed_end(self.sections_end(), self.rela_lens, 8, self.rela_lens.len() as int)
    }

    /// The number of section headers.
    pub open spec fn section_count(self) -> nat {
        1 + self.section_lens.len() + self.rela_lens.len() + 3 + (if self.has_dynamic() {
            3 + (if self.hash_style.sysv {
                1nat
            } else {
                0
            }) + (if self.hash_style.gnu {
                1nat
            } else {
                0
            })
        } else {
            0
        })
    }

    /// The state of the writer after the file ranges of the headers, the
    /// output sections and the dynamic relocations are reserved.
    pub open spec fn ranges(self, m: WriterModel) -> WriterModel {
        WriterModel {
            reserved: self.relas_end(),
            segment_num: self.program_header_count(),
            segment_offset: 64,
            ..m
        }
    }

    /// Whether those ranges can be reserved.
    pub open spec fn ranges_fit(self) -> bool {
        &&& regions_fit(self.headers_end(), self.section_lens, 4096)
        &&& regions_fit(self.sections_end(), self.rela_lens, 8)
    }

    /// The state of the writer after every section has its name and index.
    pub open spec fn names(self, m: WriterModel) -> WriterModel {
        let b = WriterModel {
            section_num: 1 + self.section_lens.len() + self.rela_lens.len(),
            shstrtab: with_strings(
                with_strings(m.shstrtab, self.section_names, self.section_names.len() as int),
                self.rela_names,
                self.rela_names.len() as int,
            ),
            ..m
        };
        if self.has_dynamic() {
            dynamic_indices(static_indices(b), self.hash_style.sysv, self.hash_style.gnu)
        } else {
            static_indices(b)
        }
    }

    /// Whether the sections can be named: the section headers are few enough
    /// for every index to lie below the reserved indices, and no name holds a
    /// zero byte.
    pub open spec fn names_fit(self) -> bool {
        &&& self.section_count() < 0xff00
        &&& clean(self.section_names)
        &&& clean(self.rela_names)
    }

    /// The state of the writer after the section headers are reserved and
    /// every symbol has its name and its place in `.symtab`.
    pub open spec fn symbols(self, m: WriterModel) -> WriterModel {
        WriterModel {
            section_offset: align_up(m.reserved, 8),
            reserved: after_records(m, m.section_num, 64),
            symtab_num: 1 + self.symbol_names.len(),
            need_strtab: true,
            strtab: with_strings(m.strtab, self.symbol_names, self.symbol_names.len() as int),
            ..m
        }
    }

    /// The state of the writer after the static tables are reserved.
    pub open spec fn tables(self, m: WriterModel) -> WriterModel {
        after_tables(self.symbols(m))
    }

    /// Whether the section headers and the static tables can be reserved.
    pub open spec fn tables_fit(self, m: WriterModel) -> bool {
        &&& m.reserved <= bound()
        &&& clean(self.symbol_names)
        &&& self.symbol_names.len() + 2 < u32::MAX
        &&& (self.symbol_names.len() + 1) * 24 <= bound()
        &&& tables_fit(self.symbols(m))
    }

    /// The state of the writer after the dynamic table is reserved and every
    /// dynamic symbol, the name of the output and every needed shared object
    /// has its name in `.dynstr`.
    pub open spec fn dynamic_names(self, m: WriterModel) -> WriterModel {
        let a = after_dynamic(m, self.dynamic_entry_count());
        WriterModel {
            dynsym_num: 1 + self.import_names.len() + self.export_names.len(),
            need_dynstr: true,
            dynstr: with_strings(
                with_optional(
                    with_strings(
                        with_strings(a.dynstr, self.import_names, self.import_names.len() as int),
                        self.export_names,
                        self.export_names.len() as int,
                    ),
                    self.soname,
                ),
                self.needed_names,
                self.needed_names.len() as int,
            ),
            ..a
        }
    }

    /// The state of the writer after the dynamic part is reserved.
    pub open spec fn dynamic(self, m: WriterModel) -> WriterModel {
        after_hashes(
            after_dynstr(after_dynsym(self.dynamic_names(m))),
            self.hash_style.sysv,
            self.hash_style.gnu,
            self.import_names.len(),
            self.export_names.len(),
        )
    }

    /// Whether the dynamic part of the output can be reserved.
    pub open spec fn dynamic_fit(self, m: WriterModel) -> bool {
        &&& m.reserved <= bound()
        &&& self.dynamic_entry_count() * 16 <= bound()
        &&& self.import_names.len() + self.export_names.len() + 2 < u32::MAX
        &&& (self.import_names.len() + self.export_names.len() + 1) * 24 <= bound()
        &&& clean(self.import_names)
        &&& clean(self.export_names)
        &&& self.all_defined
        &&& self.soname is Some ==> !self.soname->Some_0.contains(0u8)
        &&& clean(self.needed_names)
        &&& self.dynamic_names(m).reserved <= bound()
        &&& after_dynsym(self.dynamic_names(m)).reserved <= bound()
        &&& hashes_fit(
            after_dynstr(after_dynsym(self.dynamic_names(m))),
            self.hash_style.sysv,
            self.hash_style.gnu,
            self.import_names.len(),
            self.export_names.len(),
        )
    }

    /// The state of the writer after the static part is reserved.
    pub open spec fn statics(self, m: WriterModel) -> WriterModel {
        self.tables(self.names(self.ranges(m)))
    }

    /// The state of the writer after everything is reserved.
    pub open spec fn plan(self, m: WriterModel) -> WriterModel {
        if self.has_dynamic() {
            self.dynamic(self.statics(m))
        } else {
            self.statics(m)
        }
    }

    /// Whether the output can be reserved: every range starts within the
    /// bound, no name holds a zero byte, the sections and symbols are few
    /// enough for their indices, every dynamic symbol is in the symbol
    /// table, and the whole file is shorter than half the address space.
    pub open spec fn reservable(self, m: WriterModel) -> bool {
        &&& self.ranges_fit()
        &&& self.names_fit()
        &&& self.tables_fit(self.names(self.ranges(m)))
        &&& self.has_dynamic() ==> self.dynamic_fit(self.statics(m))
        &&& 2 * self.plan(m).reserved <= usize::MAX
    }
}

/// The table with a string added, where there is one.
pub open spec fn with_optional(t: crate::writer::StringTable, s: Option<Seq<u8>>)
    -> crate::writer::StringTable {
    match s {
        Some(name) => crate::writer::with_string(t, name),
        None => t,
    }
}

/// The name of a shared output, as bytes.
pub open spec fn soname_bytes(soname: Option<String>) -> Option<Seq<u8>> {
    match soname {
        Some(name) => Some(name_bytes(name@)),
        None => None,
    }
}

impl Linker {
    /// What the layout of the output of this linker depends on.
    pub open spec fn shape(&self) -> Shape {
        Shape {
            shared: self.opt.shared,
            dynamic_link: self.dynamic_link,
            hash_style: self.opt.hash_style,
            section_lens: content_lens(self.output_sections@),
            section_names: section_name_bytes(self.output_sections@),
            rela_lens: rela_lens(self.output_relocations@),
            rela_names: rela_name_bytes(self.output_relocations@),
            symbol_names: symbol_name_bytes(self.symbols@),
            import_names: dynamic_name_bytes(self.plt_dynamic_symbols@),
            export_names: dynamic_name_bytes(self.dynamic_symbols@),
            all_defined: all_defined(self.plt_dynamic_symbols@, self.symbols@) && all_defined(
                self.dynamic_symbols@,
                self.symbols@,
            ),
            soname: soname_bytes(self.opt.soname),
            needed_names: needed_name_bytes(self.needed@),
        }
    }

    /// The places and string identifiers of the sections are those of the
    /// writer in the state `m`.
    pub open spec fn sections_placed(&self, m: WriterModel) -> bool {
        &&& forall|i: int|
            0 <= i < self.output_sections@.len() ==> {
                &&& (#[trigger] self.output_sections@[i]).offset == placed_at(
                    self.shape().headers_end(),
                    self.shape().section_lens,
                    4096,
                    i,
                )
                &&& self.output_sections@[i].section_index == Some((1 + i) as u32)
                &&& self.output_sections@[i].name_string_id is Some
                &&& spells(
                    self.output_sections@[i].name_string_id,
                    m.shstrtab,
                    self.output_sections@[i].name@,
                )
            }
        &&& forall|i: int|
            0 <= i < self.output_relocations@.len() ==> {
                &&& (#[trigger] self.output_relocations@[i]).offset == placed_at(
                    self.shape().sections_end(),
                    self.shape().rela_lens,
                    8,
                    i,
                )
                &&& self.output_relocations@[i].name_string_id is Some
                &&& spells(
                    self.output_relocations@[i].name_string_id,
                    m.shstrtab,
                    self.output_relocations@[i].name@,
                )
            }
    }

    /// The string identifiers of the symbols are those of the writer in the
    /// state `m`.
    pub open spec fn symbols_placed(&self, m: WriterModel) -> bool {
        forall|i: int|
            0 <= i < self.symbols@.len() ==> {
                &&& (#[trigger] self.symbols@[i]).symbol_name_string_id is Some
                &&& spells(self.symbols@[i].symbol_name_string_id, m.strtab, self.symbols@[i].name@)
                &&& spells(
                    self.symbols@[i].symbol_name_dynamic_string_id,
                    m.dynstr,
                    self.symbols@[i].name@,
                )
            }
    }

    /// The places of the dynamic tables are those of the writer in the state
    /// `m`.
    pub open spec fn dynamic_placed(&self, m: WriterModel) -> bool {
        &&& dynamic_names_set(
            self.plt_dynamic_symbols@,
            self.symbols@,
            self.plt_dynamic_symbols@.len() as int,
        )
        &&& dynamic_names_set(
            self.dynamic_symbols@,
            self.symbols@,
            self.dynamic_symbols@.len() as int,
        )
        &&& self.dynamic_entries_count == self.shape().dynamic_entry_count()
        &&& self.dynamic_section_index == 1 + self.output_sections@.len()
            + self.output_relocations@.len() + 3
        &&& self.dynsym_section_index == self.dynamic_section_index + 1
        &&& self.dynamic_section_offset == m.dynamic_offset
        &&& self.dynsym_section_offset == m.dynsym_offset
        &&& self.dynstr_section_offset == m.dynstr_offset
        &&& self.opt.hash_style.sysv ==> self.hash_section_offset == m.hash_offset
        &&& self.opt.hash_style.gnu ==> self.gnu_hash_section_offset == m.gnu_hash_offset
        &&& self.soname_dynamic_string_index is Some == self.opt.soname is Some
        &&& self.opt.soname is Some ==> spells(
            self.soname_dynamic_string_index,
            m.dynstr,
            self.opt.soname->Some_0@,
        )
        &&& forall|i: int|
            0 <= i < self.needed@.len() ==> {
                &&& (#[trigger] self.needed@[i]).name_string_id is Some
                &&& spells(self.needed@[i].name_string_id, m.dynstr, self.needed@[i].name@)
            }
    }

    /// The places, indices and string identifiers that this linker holds are
    /// those of the writer in the state `m`.
    pub open spec fn placed_in(&self, m: WriterModel) -> bool {
        &&& self.load_address == (if self.opt.shared {
            0
        } else {
            EXECUTABLE_BASE
        })
        &&& self.sections_placed(m)
        &&& self.symbols_placed(m)
        &&& self.dynamic_section_index < 0xff00
        &&& self.dynsym_section_index < 0xff00
        &&& self.shape().has_dynamic() ==> self.dynamic_placed(m)
    }
}

/// A writer that has reserved and written nothing.
pub open spec fn untouched(m: WriterModel) -> bool {
    m == (WriterModel { sink: m.sink, ..WriterModel::fresh() })
}

/// Reserves the file header, the program headers, the output sections and
/// the sections of dynamic relocations.
pub(crate) fn reserve_ranges(
    w: &mut Writer<'_>,
    sections: &mut Vec<OutputSection>,
    relas: &mut Vec<OutputRelocationSection>,
    Ghost(shape): Ghost<Shape>,
    headers: u32,
) -> (res: Result<(), LinkError>)
    requires
        writer_model(*old(w)).reserved == 0,
        writer_model(*old(w)).segment_offset == 0,
        headers == shape.program_header_count(),
        shape.section_lens == content_lens(old(sections)@),
        shape.rela_lens == rela_lens(old(relas)@),
    ensures
        res is Ok <==> shape.ranges_fit(),
        res is Err ==> res->Err_0@ == LinkErrorView::Bug,
        res is Ok ==> {
            &&& writer_model(*final(w)) == shape.ranges(writer_model(*old(w)))
            &&& same_but_offsets(old(sections)@, final(sections)@)
            &&& forall|i: int|
                0 <= i < final(sections)@.len() ==> (#[trigger] final(sections)@[i]).offset
                    == placed_at(shape.headers_end(), shape.section_lens, 4096, i)
            &&& final(relas)@.len() == old(relas)@.len()
            &&& forall|i: int|
                0 <= i < final(relas)@.len() ==> {
                    &&& (#[trigger] final(relas)@[i]).offset == placed_at(
                        shape.sections_end(),
                        shape.rela_lens,
                        8,
                        i,
                    )
                    &&& final(relas)@[i].name == old(relas)@[i].name
                    &&& final(relas)@[i].relocations == old(relas)@[i].relocations
                    &&& final(relas)@[i].name_string_id == old(relas)@[i].name_string_id
                }
        },
{
    reserve_file_header(w);
    proof {
        lemma_align_up(64, 8);
    }
    reserve_program_headers(w, headers);
    match reserve_sections(w, sections) {
        Err(e) => {
            return Err(e);
        },
        Ok(()) => {},
    }
    reserve_relas(w, relas)
}

/// Whether a writer is ready for the names and indices of the sections.
pub open spec fn ready_for_names(m: WriterModel) -> bool {
    &&& m.section_num == 0
    &&& m.section_offset == 0
    &&& m.shstrtab_offset == 0
    &&& m.shstrtab.offsets.len() == 0
    &&& m.symtab_index == 0
    &&& m.strtab_index == 0
    &&& m.shstrtab_index == 0
    &&& !m.dynamic_named
    &&& m.dynsym_index == 0
    &&& m.dynstr_index == 0
    &&& !m.hash_named
    &&& !m.gnu_hash_named
}

/// Gives every section its name and its index, the writer's own sections
/// included, and returns the indices of `.dynamic` and `.dynsym`.
pub(crate) fn reserve_names<'a>(
    w: &mut Writer<'a>,
    arena: &'a Arena<u8>,
    sections: &mut Vec<OutputSection>,
    relas: &mut Vec<OutputRelocationSection>,
    Ghost(shape): Ghost<Shape>,
    dynamic: bool,
    sysv: bool,
    gnu: bool,
) -> (res: Result<(u32, u32), LinkError>)
    requires
        ready_for_names(writer_model(*old(w))),
        dynamic == shape.has_dynamic(),
        sysv == shape.hash_style.sysv,
        gnu == shape.hash_style.gnu,
        shape.section_lens.len() == old(sections)@.len(),
        shape.rela_lens.len() == old(relas)@.len(),
        shape.section_names == section_name_bytes(old(sections)@),
        shape.rela_names == rela_name_bytes(old(relas)@),
    ensures
        res is Ok <==> shape.names_fit(),
        res is Err ==> res->Err_0@ == LinkErrorView::Bug,
        res is Ok ==> {
            &&& writer_model(*final(w)) == shape.names(writer_model(*old(w)))
            &&& sections_named(old(sections)@, final(sections)@, 1, writer_model(*final(w)).shstrtab)
            &&& final(relas)@.len() == old(relas)@.len()
            &&& forall|k: int|
                0 <= k < final(relas)@.len() ==> {
                    &&& (#[trigger] final(relas)@[k]).name == old(relas)@[k].name
                    &&& final(relas)@[k].relocations == old(relas)@[k].relocations
                    &&& final(relas)@[k].offset == old(relas)@[k].offset
                    &&& final(relas)@[k].name_string_id is Some
                    &&& spells(
                        final(relas)@[k].name_string_id,
                        writer_model(*final(w)).shstrtab,
                        final(relas)@[k].name@,
                    )
                }
            &&& dynamic ==> res->Ok_0.0 == 1 + old(sections)@.len() + old(relas)@.len() + 3
                && res->Ok_0.1 == res->Ok_0.0 + 1
            &&& !dynamic ==> res->Ok_0.0 == 0 && res->Ok_0.1 == 0
        },
{
    let ghost m = writer_model(*w);
    reserve_null_section_index(w);
    let mut most: usize = 0xff00 - 4;
    if dynamic {
        most -= 3;
        if sysv {
            most -= 1;
        }
        if gnu {
            most -= 1;
        }
    }
    if sections.len() >= most || relas.len() >= most - sections.len() {
        return Err(LinkError::Bug);
    }
    match name_sections(w, arena, sections) {
        Err(e) => {
            return Err(e);
        },
        Ok(()) => {},
    }
    let ghost named = writer_model(*w).shstrtab;
    proof {
        lemma_with_strings(m.shstrtab, shape.section_names, shape.section_names.len() as int);
    }
    match name_relas(w, arena, relas) {
        Err(e) => {
            return Err(e);
        },
        Ok(()) => {},
    }
    proof {
        lemma_with_strings(named, shape.rela_names, shape.rela_names.len() as int);
    }
    let ghost before = writer_model(*w).shstrtab;
    reserve_static_indices(w);
    let indices = if dynamic {
        reserve_dynamic_indices(w, sysv, gnu)
    } else {
        (0, 0)
    };
    proof {
        let after = writer_model(*w).shstrtab;
        lemma_with_strings_extends(named, shape.rela_names, shape.rela_names.len() as int);
        assert(extends(named, before));
        assert(extends(before, after));
        assert forall|k: int| 0 <= k < sections@.len() implies spells(
            (#[trigger] sections@[k]).name_string_id,
            after,
            sections@[k].name@,
        ) by {}
        assert forall|k: int| 0 <= k < relas@.len() implies spells(
            (#[trigger] relas@[k]).name_string_id,
            after,
            relas@[k].name@,
        ) by {}
    }
    Ok(indices)
}

/// Whether a writer is ready for the section headers and the static tables.
pub open spec fn ready_for_tables(m: WriterModel) -> bool {
    &&& m.section_offset == 0
    &&& 0 < m.section_num < 0xff00
    &&& m.symtab_offset == 0
    &&& m.symtab_num == 0
    &&& m.strtab_offset == 0
    &&& m.strtab.offsets.len() == 0
    &&& m.shstrtab_offset == 0
    &&& m.shstrtab.offsets.len() == 0
}

/// Reserves the section headers, gives every symbol its name and its place,
/// and reserves the static tables.
pub(crate) fn reserve_symbol_tables<'a>(
    w: &mut Writer<'a>,
    arena: &'a Arena<u8>,
    symbols: &mut Vec<Symbol>,
    Ghost(shape): Ghost<Shape>,
) -> (res: Result<(), LinkError>)
    requires
        ready_for_tables(writer_model(*old(w))),
        shape.symbol_names == symbol_name_bytes(old(symbols)@),
    ensures
        res is Ok <==> shape.tables_fit(writer_model(*old(w))),
        res is Err ==> res->Err_0@ == LinkErrorView::Bug,
        res is Ok ==> {
            &&& writer_model(*final(w)) == shape.tables(writer_model(*old(w)))
            &&& symbols_named(old(symbols)@, final(symbols)@, writer_model(*final(w)).strtab)
            &&& is_laid_out(writer_model(*final(w)).strtab)
            &&& is_laid_out(writer_model(*final(w)).shstrtab)
            &&& writer_model(*final(w)).shstrtab.strings == writer_model(*old(w)).shstrtab.strings
        },
{
    let ghost m = writer_model(*w);
    match reserve_header_table(w) {
        Err(e) => {
            return Err(e);
        },
        Ok(()) => {},
    }
    match name_symbols(w, arena, symbols) {
        Err(e) => {
            return Err(e);
        },
        Ok(()) => {},
    }
    proof {
        lemma_with_strings(m.strtab, shape.symbol_names, shape.symbol_names.len() as int);
        assert(writer_model(*w) == shape.symbols(m));
    }
    reserve_tables(w)
}

/// Where the dynamic tables start, and the name of the output in `.dynstr`.
pub struct DynamicPlaces {
    pub dynamic: usize,
    pub dynsym: usize,
    pub dynstr: usize,
    pub hash: usize,
    pub gnu_hash: usize,
    pub soname: Option<StringId>,
}

/// Whether a writer is ready for the dynamic tables.
pub open spec fn ready_for_dynamic(m: WriterModel) -> bool {
    &&& m.dynamic_offset == 0
    &&& m.dynsym_offset == 0
    &&& m.dynsym_num == 0
    &&& m.dynstr_offset == 0
    &&& m.dynstr.offsets.len() == 0
}

proof fn lemma_defined_kept(list: Seq<DynamicSymbol>, a: Seq<Symbol>, b: Seq<Symbol>)
    requires
        a.len() == b.len(),
        forall|i: int| 0 <= i < a.len() ==> (#[trigger] b[i]).name == a[i].name,
    ensures
        all_defined(list, a) == all_defined(list, b),
{
    assert(crate::lookup::symbol_names(crate::text::views(a)) =~= crate::lookup::symbol_names(
        crate::text::views(b),
    ));
}

/// Counts the entries of the dynamic table; `None` where their 16 bytes each
/// come to more than the bound.
fn count_entries(hash_style: HashStyle, soname: bool, dynamic_link: bool, needed: usize) -> (count:
    Option<usize>)
    ensures
        count is Some <==> dynamic_count(hash_style, soname, dynamic_link, needed as nat) * 16
            <= bound(),
        count is Some ==> count->Some_0 == dynamic_count(
            hash_style,
            soname,
            dynamic_link,
            needed as nat,
        ),
{
    let mut fixed: usize = 5;
    if hash_style.sysv {
        fixed += 1;
    }
    if hash_style.gnu {
        fixed += 1;
    }
    if soname {
        fixed += 1;
    }
    if dynamic_link {
        fixed += 4;
    }
    if needed > limit() / 16 - fixed {
        None
    } else {
        Some(fixed + needed)
    }
}

/// Gives the dynamic symbols, the output and the needed shared objects their
/// names in `.dynstr`.
pub(crate) fn reserve_dynamic_names<'a>(
    w: &mut Writer<'a>,
    arena: &'a Arena<u8>,
    imports: &Vec<DynamicSymbol>,
    exports: &Vec<DynamicSymbol>,
    symbols: &mut Vec<Symbol>,
    soname: &Option<String>,
    needed: &mut Vec<Needed>,
    Ghost(shape): Ghost<Shape>,
) -> (res: Result<Option<StringId>, LinkError>)
    requires
        writer_model(*old(w)).dynstr_offset == 0,
        writer_model(*old(w)).dynstr.offsets.len() == 0,
        writer_model(*old(w)).dynsym_offset == 0,
        writer_model(*old(w)).dynsym_num == 1,
        writer_model(*old(w)).need_dynstr,
        imports@.len() + exports@.len() + 2 < u32::MAX,
        shape.import_names == dynamic_name_bytes(imports@),
        shape.export_names == dynamic_name_bytes(exports@),
        shape.all_defined == (all_defined(imports@, old(symbols)@) && all_defined(
            exports@,
            old(symbols)@,
        )),
        shape.soname == soname_bytes(*soname),
        shape.needed_names == needed_name_bytes(old(needed)@),
        symbols_kept(old(symbols)@, old(symbols)@, writer_model(*old(w)).dynstr),
    ensures
        res is Ok <==> {
            &&& clean(shape.import_names)
            &&& clean(shape.export_names)
            &&& shape.all_defined
            &&& shape.soname is Some ==> !shape.soname->Some_0.contains(0u8)
            &&& clean(shape.needed_names)
        },
        res is Err ==> res->Err_0@ == LinkErrorView::Bug,
        res is Ok ==> {
            &&& writer_model(*final(w)) == (WriterModel {
                dynsym_num: 1 + shape.import_names.len() + shape.export_names.len(),
                dynstr: with_strings(
                    with_optional(
                        with_strings(
                            with_strings(
                                writer_model(*old(w)).dynstr,
                                shape.import_names,
                                shape.import_names.len() as int,
                            ),
                            shape.export_names,
                            shape.export_names.len() as int,
                        ),
                        shape.soname,
                    ),
                    shape.needed_names,
                    shape.needed_names.len() as int,
                ),
                ..writer_model(*old(w))
            })
            &&& writer_model(*final(w)).dynstr.offsets == writer_model(*old(w)).dynstr.offsets
            &&& symbols_kept(old(symbols)@, final(symbols)@, writer_model(*final(w)).dynstr)
            &&& dynamic_names_set(imports@, final(symbols)@, imports@.len() as int)
            &&& dynamic_names_set(exports@, final(symbols)@, exports@.len() as int)
            &&& res->Ok_0 is Some == soname is Some
            &&& soname is Some ==> spells(
                res->Ok_0,
                writer_model(*final(w)).dynstr,
                soname->Some_0@,
            )
            &&& final(needed)@.len() == old(needed)@.len()
            &&& forall|k: int|
                0 <= k < final(needed)@.len() ==> {
                    &&& (#[trigger] final(needed)@[k]).name == old(needed)@[k].name
                    &&& final(needed)@[k].name_string_id is Some
                    &&& spells(
                        final(needed)@[k].name_string_id,
                        writer_model(*final(w)).dynstr,
                        final(needed)@[k].name@,
                    )
                }
        },
{
    let ghost m = writer_model(*w);
    match name_dynamic_symbols(w, arena, imports, symbols) {
        Err(e) => {
            return Err(e);
        },
        Ok(()) => {},
    }
    let ghost t1 = writer_model(*w).dynstr;
    let ghost named = symbols@;
    proof {
        lemma_with_strings(m.dynstr, shape.import_names, shape.import_names.len() as int);
        lemma_defined_kept(exports@, old(symbols)@, symbols@);
    }
    match name_dynamic_symbols(w, arena, exports, symbols) {
        Err(e) => {
            return Err(e);
        },
        Ok(()) => {},
    }
    let ghost t2 = writer_model(*w).dynstr;
    proof {
        lemma_with_strings(t1, shape.export_names, shape.export_names.len() as int);
        lemma_names_set_stay(imports@, named, symbols@, imports@.len() as int);
    }
    let id = match name_soname(w, arena, soname) {
        Err(e) => {
            return Err(e);
        },
        Ok(id) => id,
    };
    let ghost t3 = writer_model(*w).dynstr;
    assert(t3 == with_optional(t2, shape.soname));
    match name_needed(w, arena, needed) {
        Err(e) => {
            return Err(e);
        },
        Ok(()) => {},
    }
    proof {
        let t4 = writer_model(*w).dynstr;
        lemma_with_strings(t3, shape.needed_names, shape.needed_names.len() as int);
        lemma_with_strings_extends(t3, shape.needed_names, shape.needed_names.len() as int);
        assert(extends(t2, t3));
        assert(extends(t3, t4));
        assert forall|k: int| 0 <= k < symbols@.len() implies spells(
            (#[trigger] symbols@[k]).symbol_name_dynamic_string_id,
            t4,
            symbols@[k].name@,
        ) by {}
    }
    Ok(id)
}

/// Reserves the dynamic table, the dynamic symbol and string tables and the
/// hash tables.
pub(crate) fn reserve_dynamic_tables<'a>(
    w: &mut Writer<'a>,
    arena: &'a Arena<u8>,
    count: usize,
    imports: &Vec<DynamicSymbol>,
    exports: &Vec<DynamicSymbol>,
    symbols: &mut Vec<Symbol>,
    soname: &Option<String>,
    needed: &mut Vec<Needed>,
    Ghost(shape): Ghost<Shape>,
    sysv: bool,
    gnu: bool,
) -> (res: Result<DynamicPlaces, LinkError>)
    requires
        ready_for_dynamic(writer_model(*old(w))),
        count == shape.dynamic_entry_count(),
        count * 16 <= bound(),
        sysv == shape.hash_style.sysv,
        gnu == shape.hash_style.gnu,
        shape.import_names == dynamic_name_bytes(imports@),
        shape.export_names == dynamic_name_bytes(exports@),
        shape.all_defined == (all_defined(imports@, old(symbols)@) && all_defined(
            exports@,
            old(symbols)@,
        )),
        shape.soname == soname_bytes(*soname),
        shape.needed_names == needed_name_bytes(old(needed)@),
        symbols_kept(old(symbols)@, old(symbols)@, writer_model(*old(w)).dynstr),
    ensures
        res is Ok <==> shape.dynamic_fit(writer_model(*old(w))),
        res is Err ==> res->Err_0@ == LinkErrorView::Bug,
        res is Ok ==> {
            &&& writer_model(*final(w)) == shape.dynamic(writer_model(*old(w)))
            &&& symbols_kept(old(symbols)@, final(symbols)@, writer_model(*final(w)).dynstr)
            &&& dynamic_names_set(imports@, final(symbols)@, imports@.len() as int)
            &&& dynamic_names_set(exports@, final(symbols)@, exports@.len() as int)
            &&& is_laid_out(writer_model(*final(w)).dynstr)
            &&& res->Ok_0.dynamic == writer_model(*final(w)).dynamic_offset
            &&& res->Ok_0.dynsym == writer_model(*final(w)).dynsym_offset
            &&& res->Ok_0.dynstr == writer_model(*final(w)).dynstr_offset
            &&& sysv ==> res->Ok_0.hash == writer_model(*final(w)).hash_offset
            &&& gnu ==> res->Ok_0.gnu_hash == writer_model(*final(w)).gnu_hash_offset
            &&& res->Ok_0.soname is Some == soname is Some
            &&& soname is Some ==> spells(
                res->Ok_0.soname,
                writer_model(*final(w)).dynstr,
                soname->Some_0@,
            )
            &&& final(needed)@.len() == old(needed)@.len()
            &&& forall|k: int|
                0 <= k < final(needed)@.len() ==> {
                    &&& (#[trigger] final(needed)@[k]).name == old(needed)@[k].name
                    &&& final(needed)@[k].name_string_id is Some
                    &&& spells(
                        final(needed)@[k].name_string_id,
                        writer_model(*final(w)).dynstr,
                        final(needed)@[k].name@,
                    )
                }
        },
{
    let ghost m = writer_model(*w);
    if reserved_len(w) > limit() {
        return Err(LinkError::Bug);
    }
    let most = (u32::MAX - 2) as usize;
    if imports.len() >= most || exports.len() >= most - imports.len() {
        return Err(LinkError::Bug);
    }
    if imports.len() + exports.len() >= limit() / 24 {
        return Err(LinkError::Bug);
    }
    proof {
        lemma_align_up(m.reserved, 8);
    }
    let dynamic = reserve_dynamic(w, count);
    reserve_null_dynamic_symbol_index(w);
    require_dynstr(w);
    let soname_id = match reserve_dynamic_names(
        w,
        arena,
        imports,
        exports,
        symbols,
        soname,
        needed,
        Ghost(shape),
    ) {
        Err(e) => {
            return Err(e);
        },
        Ok(id) => id,
    };
    assert(writer_model(*w) == shape.dynamic_names(m));
    let ghost names = writer_model(*w).dynstr;
    if reserved_len(w) > limit() {
        return Err(LinkError::Bug);
    }
    proof {
        lemma_align_up(writer_model(*w).reserved, 8);
    }
    let dynsym = reserve_dynsym(w);
    if reserved_len(w) > limit() {
        return Err(LinkError::Bug);
    }
    let dynstr = reserve_dynstr(w);
    let places = match reserve_hashes(w, sysv, gnu, imports.len() as u32, exports.len() as u32) {
        Err(e) => {
            return Err(e);
        },
        Ok(places) => places,
    };
    assert(writer_model(*w).dynstr.strings == names.strings);
    Ok(
        DynamicPlaces {
            dynamic,
            dynsym,
            dynstr,
            hash: places.hash,
            gnu_hash: places.gnu_hash,
            soname: soname_id,
        },
    )
}

/// The plan leaves the writer ready for each next stage.
pub proof fn lemma_plan_ready(shape: Shape, m: WriterModel)
    requires
        untouched(m),
    ensures
        ready_for_names(shape.ranges(m)),
        shape.names_fit() ==> ready_for_tables(shape.names(shape.ranges(m))),
        ready_for_dynamic(shape.statics(m)),
        shape.statics(m).dynstr == m.dynstr,
        shape.statics(m).buffer == m.buffer,
        shape.statics(m).sink == m.sink,
{
    let r = shape.ranges(m);
    lemma_with_strings(r.shstrtab, shape.section_names, shape.section_names.len() as int);
    lemma_with_strings(
        with_strings(r.shstrtab, shape.section_names, shape.section_names.len() as int),
        shape.rela_names,
        shape.rela_names.len() as int,
    );
}

/// The dynamic part of the plan leaves the static part alone.
pub proof fn lemma_dynamic_frame(shape: Shape, m: WriterModel)
    ensures
        shape.dynamic(m).shstrtab == m.shstrtab,
        shape.dynamic(m).strtab == m.strtab,
        shape.dynamic(m).buffer == m.buffer,
        shape.dynamic(m).sink == m.sink,
        shape.dynamic(m).capacity == m.capacity,
{
}

impl Linker {
    /// This linker holds what `o` holds, but for places, indices and string
    /// identifiers.
    pub open spec fn kept(&self, o: &Linker) -> bool {
        &&& self.opt == o.opt
        &&& self.dynamic_link == o.dynamic_link
        &&& self.plt_dynamic_symbols == o.plt_dynamic_symbols
        &&& self.dynamic_symbols == o.dynamic_symbols
        &&& self.section_address == o.section_address
        &&& self.output_sections@.len() == o.output_sections@.len()
        &&& forall|i: int|
            0 <= i < self.output_sections@.len() ==> {
                &&& (#[trigger] self.output_sections@[i]).name == o.output_sections@[i].name
                &&& self.output_sections@[i].content == o.output_sections@[i].content
                &&& self.output_sections@[i].relocations == o.output_sections@[i].relocations
                &&& self.output_sections@[i].is_executable == o.output_sections@[i].is_executable
                &&& self.output_sections@[i].is_writable == o.output_sections@[i].is_writable
                &&& self.output_sections@[i].is_bss == o.output_sections@[i].is_bss
            }
        &&& self.symbols@.len() == o.symbols@.len()
        &&& forall|i: int|
            0 <= i < self.symbols@.len() ==> {
                &&& (#[trigger] self.symbols@[i]).name == o.symbols@[i].name
                &&& self.symbols@[i].section_name == o.symbols@[i].section_name
                &&& self.symbols@[i].offset == o.symbols@[i].offset
                &&& self.symbols@[i].is_global == o.symbols@[i].is_global
                &&& self.symbols@[i].is_plt == o.symbols@[i].is_plt
            }
        &&& self.needed@.len() == o.needed@.len()
        &&& forall|i: int|
            0 <= i < self.needed@.len() ==> (#[trigger] self.needed@[i]).name == o.needed@[i].name
        &&& self.output_relocations@.len() == o.output_relocations@.len()
        &&& forall|i: int|
            0 <= i < self.output_relocations@.len() ==> {
                &&& (#[trigger] self.output_relocations@[i]).name == o.output_relocations@[i].name
                &&& self.output_relocations@[i].relocations
                    == o.output_relocations@[i].relocations
            }
    }

    /// A linker that holds what another holds has its shape.
    pub proof fn lemma_kept_shape(&self, o: &Linker)
        requires
            self.kept(o),
        ensures
            self.shape() == o.shape(),
    {
        let a = self.shape();
        let b = o.shape();
        assert(a.section_lens =~= b.section_lens);
        assert(a.section_names =~= b.section_names);
        assert(a.rela_lens =~= b.rela_lens);
        assert(a.rela_names =~= b.rela_names);
        assert(a.symbol_names =~= b.symbol_names);
        assert(a.needed_names =~= b.needed_names);
        lemma_defined_kept(self.plt_dynamic_symbols@, o.symbols@, self.symbols@);
        lemma_defined_kept(self.dynamic_symbols@, o.symbols@, self.symbols@);
    }

    /// The part of `placed_in` that the static stage establishes.
    pub open spec fn statics_placed(&self, m: WriterModel) -> bool {
        &&& self.load_address == (if self.opt.shared {
            0
        } else {
            EXECUTABLE_BASE
        })
        &&& self.sections_placed(m)
        &&& forall|i: int|
            0 <= i < self.symbols@.len() ==> {
                &&& (#[trigger] self.symbols@[i]).symbol_name_string_id is Some
                &&& spells(self.symbols@[i].symbol_name_string_id, m.strtab, self.symbols@[i].name@)
                &&& self.symbols@[i].symbol_name_dynamic_string_id is None
            }
        &&& self.dynamic_section_index < 0xff00
        &&& self.dynsym_section_index < 0xff00
        &&& self.shape().has_dynamic() ==> {
            &&& self.dynamic_section_index == 1 + self.output_sections@.len()
                + self.output_relocations@.len() + 3
            &&& self.dynsym_section_index == self.dynamic_section_index + 1
        }
    }

    /// Reserves the static part of the output: headers, sections, dynamic
    /// relocations, section indices, section headers, and the symbol and
    /// string tables.
    pub(crate) fn reserve_static<'a>(&mut self, w: &mut Writer<'a>, arena: &'a Arena<u8>) -> (res:
        Result<(), LinkError>)
        requires
            untouched(writer_model(*old(w))),
        ensures
            res is Ok <==> {
                &&& old(self).shape().ranges_fit()
                &&& old(self).shape().names_fit()
                &&& old(self).shape().tables_fit(
                    old(self).shape().names(old(self).shape().ranges(writer_model(*old(w)))),
                )
            },
            res is Err ==> res->Err_0@ == LinkErrorView::Bug,
            res is Ok ==> {
                &&& writer_model(*final(w)) == old(self).shape().statics(writer_model(*old(w)))
                &&& final(self).kept(old(self))
                &&& final(self).needed == old(self).needed
                &&& final(self).statics_placed(writer_model(*final(w)))
                &&& is_laid_out(writer_model(*final(w)).strtab)
                &&& is_laid_out(writer_model(*final(w)).shstrtab)
                &&& ready_for_dynamic(writer_model(*final(w)))
                &&& writer_model(*final(w)).dynstr == writer_model(*old(w)).dynstr
            },
    {
        let ghost shape = self.shape();
        let ghost m0 = writer_model(*w);
        let dynamic = self.opt.shared || self.dynamic_link;
        let sysv = self.opt.hash_style.sysv;
        let gnu = self.opt.hash_style.gnu;
        self.load_address = if self.opt.shared {
            0
        } else {
            EXECUTABLE_BASE
        };
        let mut headers: u32 = 1;
        if dynamic {
            headers += 1;
        }
        if !self.opt.shared && self.dynamic_link {
            headers += 1;
        }
        match reserve_ranges(
            w,
            &mut self.output_sections,
            &mut self.output_relocations,
            Ghost(shape),
            headers,
        ) {
            Err(e) => {
                return Err(e);
            },
            Ok(()) => {},
        }
        proof {
            assert(section_name_bytes(self.output_sections@) =~= shape.section_names);
            assert(rela_name_bytes(self.output_relocations@) =~= shape.rela_names);
        }
        let indices = match reserve_names(
            w,
            arena,
            &mut self.output_sections,
            &mut self.output_relocations,
            Ghost(shape),
            dynamic,
            sysv,
            gnu,
        ) {
            Err(e) => {
                return Err(e);
            },
            Ok(indices) => indices,
        };
        self.dynamic_section_index = indices.0;
        self.dynsym_section_index = indices.1;
        proof {
            lemma_plan_ready(shape, m0);
        }
        match reserve_symbol_tables(w, arena, &mut self.symbols, Ghost(shape)) {
            Err(e) => {
                return Err(e);
            },
            Ok(()) => {},
        }
        proof {
            assert(self.kept(old(self)));
            self.lemma_kept_shape(old(self));
        }
        Ok(())
    }

    /// Reserves the dynamic part of the output: the dynamic table, the
    /// dynamic symbol and string tables and the hash tables.
    pub(crate) fn reserve_dynamic<'a>(&mut self, w: &mut Writer<'a>, arena: &'a Arena<u8>) -> (res:
        Result<(), LinkError>)
        requires
            ready_for_dynamic(writer_model(*old(w))),
            old(self).shape().has_dynamic(),
            forall|i: int|
                0 <= i < old(self).symbols@.len() ==> (#[trigger] old(
                    self,
                ).symbols@[i]).symbol_name_dynamic_string_id is None,
        ensures
            res is Ok <==> old(self).shape().dynamic_fit(writer_model(*old(w))),
            res is Err ==> res->Err_0@ == LinkErrorView::Bug,
            res is Ok ==> {
                &&& writer_model(*final(w)) == old(self).shape().dynamic(writer_model(*old(w)))
                &&& final(self).kept(old(self))
                &&& final(self).output_sections == old(self).output_sections
                &&& final(self).output_relocations == old(self).output_relocations
                &&& final(self).load_address == old(self).load_address
                &&& final(self).dynamic_section_index == old(self).dynamic_section_index
                &&& final(self).dynsym_section_index == old(self).dynsym_section_index
                &&& forall|i: int|
                    0 <= i < final(self).symbols@.len() ==> {
                        &&& (#[trigger] final(self).symbols@[i]).symbol_name_string_id == old(
                            self,
                        ).symbols@[i].symbol_name_string_id
                        &&& spells(
                            final(self).symbols@[i].symbol_name_dynamic_string_id,
                            writer_model(*final(w)).dynstr,
                            final(self).symbols@[i].name@,
                        )
                    }
                &&& dynamic_names_set(
                    final(self).plt_dynamic_symbols@,
                    final(self).symbols@,
                    final(self).plt_dynamic_symbols@.len() as int,
                )
                &&& dynamic_names_set(
                    final(self).dynamic_symbols@,
                    final(self).symbols@,
                    final(self).dynamic_symbols@.len() as int,
                )
                &&& final(self).dynamic_entries_count == old(self).shape().dynamic_entry_count()
                &&& final(self).dynamic_section_offset == writer_model(*final(w)).dynamic_offset
                &&& final(self).dynsym_section_offset == writer_model(*final(w)).dynsym_offset
                &&& final(self).dynstr_section_offset == writer_model(*final(w)).dynstr_offset
                &&& final(self).opt.hash_style.sysv ==> final(self).hash_section_offset
                    == writer_model(*final(w)).hash_offset
                &&& final(self).opt.hash_style.gnu ==> final(self).gnu_hash_section_offset
                    == writer_model(*final(w)).gnu_hash_offset
                &&& final(self).soname_dynamic_string_index is Some == final(self).opt.soname
                    is Some
                &&& final(self).opt.soname is Some ==> spells(
                    final(self).soname_dynamic_string_index,
                    writer_model(*final(w)).dynstr,
                    final(self).opt.soname->Some_0@,
                )
                &&& forall|i: int|
                    0 <= i < final(self).needed@.len() ==> {
                        &&& (#[trigger] final(self).needed@[i]).name_string_id is Some
                        &&& spells(
                            final(self).needed@[i].name_string_id,
                            writer_model(*final(w)).dynstr,
                            final(self).needed@[i].name@,
                        )
                    }
                &&& is_laid_out(writer_model(*final(w)).dynstr)
            },
    {
        let ghost shape = self.shape();
        let sysv = self.opt.hash_style.sysv;
        let gnu = self.opt.hash_style.gnu;
        let count = match count_entries(
            self.opt.hash_style,
            self.opt.soname.is_some(),
            self.dynamic_link,
            self.needed.len(),
        ) {
            None => {
                return Err(LinkError::Bug);
            },
            Some(count) => count,
        };
        let places = match reserve_dynamic_tables(
            w,
            arena,
            count,
            &self.plt_dynamic_symbols,
            &self.dynamic_symbols,
            &mut self.symbols,
            &self.opt.soname,
            &mut self.needed,
            Ghost(shape),
            sysv,
            gnu,
        ) {
            Err(e) => {
                return Err(e);
            },
            Ok(places) => places,
        };
        self.dynamic_entries_count = count;
        self.dynamic_section_offset = places.dynamic as u64;
        self.dynsym_section_offset = places.dynsym as u64;
        self.dynstr_section_offset = places.dynstr as u64;
        if sysv {
            self.hash_section_offset = places.hash as u64;
        }
        if gnu {
            self.gnu_hash_section_offset = places.gnu_hash as u64;
        }
        self.soname_dynamic_string_index = places.soname;
        Ok(())
    }

    /// Reserves the place of every part of the output file, and gives every
    /// section its index and every name its string.
    ///
    /// Fails with `Bug` where the output cannot be reserved: a part would lie
    /// beyond the bound, a name holds a zero byte, the sections or symbols
    /// are too many, or a dynamic symbol is not in the symbol table.
    pub(crate) fn reserve<'a>(&mut self, w: &mut Writer<'a>, arena: &'a Arena<u8>) -> (res: Result<
        (),
        LinkError,
    >)
        requires
            untouched(writer_model(*old(w))),
        ensures
            res is Ok <==> old(self).shape().reservable(writer_model(*old(w))),
            res is Err ==> res->Err_0@ == LinkErrorView::Bug,
            res is Ok ==> {
                &&& writer_model(*final(w)) == old(self).shape().plan(writer_model(*old(w)))
                &&& final(self).kept(old(self))
                &&& final(self).placed_in(writer_model(*final(w)))
                &&& is_laid_out(writer_model(*final(w)).strtab)
                &&& is_laid_out(writer_model(*final(w)).shstrtab)
                &&& old(self).shape().has_dynamic() ==> is_laid_out(
                    writer_model(*final(w)).dynstr,
                )
            },
    {
        let ghost shape = self.shape();
        match self.reserve_static(w, arena) {
            Err(e) => {
                return Err(e);
            },
            Ok(()) => {},
        }
        let ghost m1 = writer_model(*w);
        let ghost middle = *self;
        proof {
            self.lemma_kept_shape(old(self));
        }
        if self.opt.shared || self.dynamic_link {
            match self.reserve_dynamic(w, arena) {
                Err(e) => {
                    return Err(e);
                },
                Ok(()) => {},
            }
            proof {
                lemma_dynamic_frame(shape, m1);
                self.lemma_kept_shape(&middle);
            }
        } else {
            self.dynamic_entries_count = 5;
        }
        if reserved_len(w) > usize::MAX / 2 {
            return Err(LinkError::Bug);
        }
        Ok(())
    }
}

} // verus!
