//! What holds of every link: facts about the stages, each proved from the
//! definitions of the stages.

use crate::accrete::{
    accreted, base_of, contribution, define_symbol, define_symbols_from, is_alloc, is_skipped,
    merge_section, merge_sections_from, rebase_one, Accreted, Defined,
};
use crate::bytes::{le32, le64, zeros};
use crate::dynamic::{lemma_dynamic_names, string, DynamicEntry, DT_NEEDED, DT_SONAME};
use crate::emit::{
    entries_image, entry_bytes, lemma_entries_len, lemma_layout_order, lemma_placed_monotone,
    lemma_program_headers_len, lemma_records_len, lemma_stands_split, lemma_symbols_len,
    program_headers_image, records_image, relas_image, sections_image, stands_at, symbols_image,
};
use crate::hash::name_bytes;
use crate::image::needed_ids_from;
use crate::input::{
    InputObjectView, InputRelocation, InputSectionView, InputSymbolView, SymbolPlace,
};
use crate::layout::{content_lens, lemma_align_up, placed_at, placed_end, spells};
use crate::link::{finished, Gathered, Linker};
use crate::lookup::{lemma_position, lemma_position_is, position, section_names, symbol_names};
use crate::model::{
    LinkErrorView, Needed, OutputSection, Rel, RelocationKind, RelocationView, SectionView,
    SymbolView, TargetView,
};
use crate::opt::OptView;
use crate::plt::{
    got_section, jump_slots, lemma_table_sizes, plt_section, synthesized, R_X86_64_JUMP_SLOT,
};
use crate::relocate::{
    apply_from, apply_one, patch_bytes, patch_width, relocated_from, relocated_section,
    section_entries, target_address,
};
use crate::symtab::{binding_info, lemma_locals_first, local_count, symtab_order};
use crate::text::views;
use crate::writer::{
    file_header_bytes, holds_at, is_laid_out, offset_of, padded, string_id_index, symbol_bytes,
    StringTable, Sym, WriterModel,
};
use object::write::StringId;
use vstd::prelude::*;

verus! {

/// A relocation against a section is recorded with the size that the section
/// had before the object of the relocation was merged in. Whatever is
/// appended to the section later, the relocation keeps pointing at the
/// address of the section plus that size.
pub proof fn lemma_section_target_is_frozen(
    snap: Seq<SectionView>,
    obj: InputObjectView,
    owner: Seq<char>,
    r: InputRelocation,
    addresses: Map<Seq<char>, u64>,
    symbols: Seq<SymbolView>,
)
    requires
        rebase_one(snap, obj, owner, r) is Ok,
    ensures
        match rebase_one(snap, obj, owner, r)->Ok_0.target {
            TargetView::Section(name, size) => {
                &&& size == base_of(snap, name)
                &&& addresses.dom().contains(name) ==> target_address(
                    addresses,
                    symbols,
                    TargetView::Section(name, size),
                ) == Ok::<u64, LinkErrorView>(addresses[name].wrapping_add(size))
            },
            TargetView::Symbol(_) => true,
        },
{
}

/// The linkage tables have a header and one entry for each import: `.plt`
/// is 16 bytes and 16 for each import long, `.got.plt` 24 bytes and 8 for
/// each import, and `.rela.plt` holds one record of 24 bytes for each import.
pub proof fn lemma_linkage_table_sizes(
    sections: Seq<SectionView>,
    symbols: Seq<SymbolView>,
    imports: Seq<Seq<char>>,
    base: u64,
)
    ensures
        ({
            let made = synthesized(sections, symbols, imports);
            let k = imports.len();
            &&& made.sections.len() == sections.len() + 2
            &&& made.sections[sections.len() as int] == plt_section(k)
            &&& made.sections[sections.len() as int + 1] == got_section(k)
            &&& made.sections[sections.len() as int].content.len() == 16 + 16 * k
            &&& made.sections[sections.len() as int + 1].content.len() == 24 + 8 * k
            &&& made.jump_slots.len() == k
            &&& records_image(made.jump_slots, base, k as int).len() == 24 * k
        }),
{
    lemma_table_sizes(imports.len());
    let made = synthesized(sections, symbols, imports);
    lemma_records_len(made.jump_slots, base, imports.len() as int);
}

/// The jump slots stand in `.rela.plt`: an output that imports at least one
/// symbol from shared objects has that one section of dynamic relocations,
/// which holds one jump slot for each import, in the order of the imports; an
/// output that imports nothing has no section of dynamic relocations.
pub proof fn lemma_jump_slots_in_rela_plt(g: Gathered, opt: OptView)
    requires
        finished(g, opt) is Ok,
    ensures
        ({
            let made = finished(g, opt)->Ok_0;
            let k = g.imports.len();
            &&& g.dynamic_link && k > 0 ==> made.relocations == seq![
                (".rela.plt"@, jump_slots(k)),
            ]
            &&& !g.dynamic_link || k == 0 ==> made.relocations == Seq::<
                (Seq<char>, Seq<Rel>),
            >::empty()
            &&& jump_slots(k).len() == k
            &&& forall|i: int|
                0 <= i < k ==> (#[trigger] jump_slots(k)[i]) == (Rel {
                    r_offset: (24 + 8 * i) as u64,
                    r_sym: (i + 1) as u32,
                    r_type: R_X86_64_JUMP_SLOT,
                    r_addend: 0,
                })
        }),
{
    lemma_jump_slots(g.imports.len());
}

/// The jump slots of `k` imports, one by one.
proof fn lemma_jump_slots(k: nat)
    ensures
        jump_slots(k).len() == k,
        forall|i: int|
            0 <= i < k ==> (#[trigger] jump_slots(k)[i]) == (Rel {
                r_offset: (24 + 8 * i) as u64,
                r_sym: (i + 1) as u32,
                r_type: R_X86_64_JUMP_SLOT,
                r_addend: 0,
            }),
    decreases k,
{
    if k > 0 {
        lemma_jump_slots((k - 1) as nat);
    }
}

/// The identifiers that the dynamic table is made from are those of the
/// needed shared objects, in their order.
proof fn lemma_needed_ids(needed: Seq<Needed>, i: int, acc: Seq<StringId>)
    requires
        0 <= i <= needed.len(),
        acc.len() == i,
        forall|k: int| 0 <= k < i ==> Some(#[trigger] acc[k]) == needed[k].name_string_id,
        needed_ids_from(needed, i, acc) is Ok,
    ensures
        needed_ids_from(needed, i, acc)->Ok_0.len() == needed.len(),
        forall|k: int|
            0 <= k < needed.len() ==> Some(#[trigger] needed_ids_from(needed, i, acc)->Ok_0[k])
                == needed[k].name_string_id,
    decreases needed.len() - i,
{
    if i < needed.len() {
        lemma_needed_ids(needed, i + 1, acc.push(needed[i].name_string_id->Some_0));
    }
}

/// A string of a table that stands in a file stands in the file: at the
/// offset of the table plus the offset of the string, ended by a zero byte.
pub proof fn lemma_holds_in_file(bytes: Seq<u8>, base: nat, data: Seq<u8>, off: nat, s: Seq<u8>)
    requires
        stands_at(bytes, base, data),
        holds_at(data, off, s),
    ensures
        holds_at(bytes, base + off, s),
{
    let whole = bytes.subrange(base as int, (base + data.len()) as int);
    let found = bytes.subrange((base + off) as int, (base + off + s.len()) as int);
    assert forall|i: int| 0 <= i < s.len() implies #[trigger] found[i] == s[i] by {
        assert(whole[off + i] == bytes[base + off + i]);
        assert(data.subrange(off as int, (off + s.len()) as int)[i] == data[off + i]);
    }
    assert(found =~= s);
    assert(whole[(off + s.len()) as int] == bytes[(base + off + s.len()) as int]);
}

/// Where the dynamic table stands at `base`, its entry of index `i` stands at
/// `base` plus 16 for each entry before it.
pub proof fn lemma_entry_in_file(
    bytes: Seq<u8>,
    base: nat,
    t: StringTable,
    entries: Seq<DynamicEntry>,
    n: int,
    i: int,
)
    requires
        0 <= i < n <= entries.len(),
        stands_at(bytes, base, entries_image(t, entries, n)),
    ensures
        stands_at(bytes, (base + 16 * i) as nat, entry_bytes(t, entries[i])),
    decreases n,
{
    let before = entries_image(t, entries, n - 1);
    lemma_entries_len(t, entries, n - 1);
    lemma_stands_split(bytes, base, before, entry_bytes(t, entries[n - 1]));
    if i < n - 1 {
        lemma_entry_in_file(bytes, base, t, entries, n - 1, i);
    }
}

/// Where a symbol table stands at `base`, the null symbol first, its record
/// of index `i` behind the null symbol stands at `base` plus 24 for the null
/// symbol and for each record before it, with the offset of its name in the
/// string table `t`.
pub proof fn lemma_record_in_file(
    bytes: Seq<u8>,
    base: nat,
    t: StringTable,
    records: Seq<Sym>,
    n: int,
    i: int,
)
    requires
        0 <= i < n <= records.len(),
        stands_at(bytes, base, zeros(24) + symbols_image(t, records, n)),
    ensures
        stands_at(
            bytes,
            (base + 24 + 24 * i) as nat,
            symbol_bytes(offset_of(t, records[i].name), records[i]),
        ),
    decreases n,
{
    let before = symbols_image(t, records, n - 1);
    let last = symbol_bytes(offset_of(t, records[n - 1].name), records[n - 1]);
    lemma_symbols_len(t, records, n - 1);
    assert(zeros(24) + symbols_image(t, records, n) =~= (zeros(24) + before) + last);
    lemma_stands_split(bytes, base, zeros(24) + before, last);
    if i < n - 1 {
        lemma_record_in_file(bytes, base, t, records, n - 1, i);
    }
}

/// An identifier that spells a name in a table that is laid out stands for an
/// offset at which the table holds that name, ended by a zero byte.
pub proof fn lemma_spelled_name(id: Option<StringId>, t: StringTable, name: Seq<char>)
    requires
        id is Some,
        spells(id, t, name),
        is_laid_out(t),
    ensures
        holds_at(t.data, offset_of(t, id), name_bytes(name)),
{
    let i = string_id_index(id->Some_0) as int;
    assert(holds_at(t.data, t.offsets[i], t.strings[i]));
}

impl Linker {
    /// After reservation the file offset of every output section is a
    /// multiple of 4096, and the address of the section is the load address
    /// plus that offset, in 64 bits.
    pub proof fn lemma_sections_page_aligned(&self, p: WriterModel, i: int)
        requires
            self.placed_in(p),
            0 <= i < self.output_sections@.len(),
        ensures
            self.output_sections@[i].offset % 4096 == 0,
            section_entries(views(self.output_sections@), self.load_address)[i] == (
                self.output_sections@[i].name@,
                self.load_address.wrapping_add(self.output_sections@[i].offset),
            ),
            self.planned_addresses()[i] == (
                self.output_sections@[i].name@,
                self.load_address.wrapping_add(self.output_sections@[i].offset),
            ),
    {
        let shape = self.shape();
        lemma_align_up(placed_end(shape.headers_end(), shape.section_lens, 4096, i), 4096);
        assert(self.output_sections@[i].offset == placed_at(
            shape.headers_end(),
            shape.section_lens,
            4096,
            i,
        ));
    }

    /// The records of `.symtab` from position `i` on, as `symtab_order`
    /// lists their symbols.
    proof fn lemma_records_follow_order(&self, order: Seq<int>, i: int, acc: Seq<Sym>)
        requires
            0 <= i <= order.len(),
            acc.len() == i,
            forall|k: int| 0 <= k < order.len() ==> 0 <= #[trigger] order[k] < self.symbols@.len(),
            forall|k: int|
                0 <= k < i ==> (#[trigger] acc[k]).st_info == binding_info(
                    self.symbols@[order[k]].is_global,
                ),
            self.static_records_from(order, i, acc) is Ok,
        ensures
            self.static_records_from(order, i, acc)->Ok_0.len() == order.len(),
            forall|k: int|
                0 <= k < order.len() ==> (#[trigger] self.static_records_from(
                    order,
                    i,
                    acc,
                )->Ok_0[k]).st_info == binding_info(self.symbols@[order[k]].is_global),
        decreases order.len() - i,
    {
        if i < order.len() {
            let r = self.static_record(self.symbols@[order[i]])->Ok_0;
            let next = acc.push(r);
            assert forall|k: int| 0 <= k < i + 1 implies (#[trigger] next[k]).st_info
                == binding_info(self.symbols@[order[k]].is_global) by {
                if k < i {
                    assert(next[k] == acc[k]);
                }
            }
            self.lemma_records_follow_order(order, i + 1, next);
        }
    }

    /// In `.symtab` every local symbol stands before every global one:
    /// behind the null symbol come as many local symbols as `sh_info` of the
    /// section says, less one, and then the global ones.
    pub proof fn lemma_symtab_locals_first(&self)
        requires
            self.static_records() is Ok,
        ensures
            self.static_records()->Ok_0.len() == self.symbols@.len(),
            forall|k: int|
                0 <= k < self.symbols@.len() ==> ((#[trigger] self.static_records()->Ok_0[
                    k
                ]).st_info == binding_info(false) <==> k + 1 < 1 + local_count(
                    views(self.symbols@),
                )),
            self.first_global() as int == (1 + local_count(views(self.symbols@))) as u32,
    {
        let symbols = views(self.symbols@);
        let order = symtab_order(symbols);
        lemma_locals_first(symbols);
        self.lemma_records_follow_order(order, 0, Seq::empty());
        assert forall|k: int| 0 <= k < self.symbols@.len() implies ((
        #[trigger] self.static_records()->Ok_0[k]).st_info == binding_info(false) <==> k + 1 < 1
            + local_count(symbols)) by {
            let i = order[k];
            assert(symbols[i].is_global == self.symbols@[i].is_global);
        }
    }
}

/// The input section is merged into the output: it has a name and occupies
/// memory at run time.
pub open spec fn is_merged(s: InputSectionView) -> bool {
    s.name.len() != 0 && is_alloc(s.flags)
}

/// The number of bytes that the sections of `obj` from index `i` on add to
/// the output section called `name`.
pub open spec fn contributed(obj: InputObjectView, name: Seq<char>, i: int) -> nat
    decreases obj.sections.len() - i,
{
    if i < 0 || i >= obj.sections.len() {
        0
    } else {
        (if is_merged(obj.sections[i]) && obj.sections[i].name == name {
            contribution(obj.sections[i]).len()
        } else {
            0
        }) + contributed(obj, name, i + 1)
    }
}

/// Merging one input section adds its contribution to the output section
/// of its name, and nothing to any other.
proof fn lemma_merged_size(
    sections: Seq<SectionView>,
    snap: Seq<SectionView>,
    obj: InputObjectView,
    s: InputSectionView,
    name: Seq<char>,
)
    requires
        merge_section(sections, snap, obj, s) is Ok,
    ensures
        base_of(merge_section(sections, snap, obj, s)->Ok_0, name) == base_of(sections, name) + (
        if is_merged(s) && s.name == name {
            contribution(s).len()
        } else {
            0
        }),
{
    let next = merge_section(sections, snap, obj, s)->Ok_0;
    if is_merged(s) {
        let names = section_names(sections);
        let p = position(names, s.name);
        lemma_position(names, s.name);
        lemma_position(names, name);
        let q = position(names, name);
        if p < sections.len() {
            assert(section_names(next) =~= names);
            if q == p {
                assert(names[q] == name);
            }
        } else {
            assert(section_names(next) =~= names.push(s.name));
            assert(section_names(next).drop_last() =~= names);
            if s.name == name {
                lemma_position_is(section_names(next), name, sections.len() as int);
            } else {
                lemma_position_is(
                    section_names(next),
                    name,
                    if q < sections.len() {
                        q
                    } else {
                        next.len() as int
                    },
                );
            }
        }
    }
}

/// What the output section called `name` holds; nothing where there is none.
pub open spec fn content_of(sections: Seq<SectionView>, name: Seq<char>) -> Seq<u8> {
    let p = position(section_names(sections), name);
    if p < sections.len() {
        sections[p].content
    } else {
        Seq::empty()
    }
}

/// Merging appends: the output section of the name of a merged input
/// section holds afterwards what it held before, followed by the bytes that
/// the input section contributes; every other output section holds what it
/// held.
pub proof fn lemma_merge_appends(
    sections: Seq<SectionView>,
    snap: Seq<SectionView>,
    obj: InputObjectView,
    s: InputSectionView,
    name: Seq<char>,
)
    requires
        merge_section(sections, snap, obj, s) is Ok,
    ensures
        content_of(merge_section(sections, snap, obj, s)->Ok_0, name) == content_of(
            sections,
            name,
        ) + (if is_merged(s) && s.name == name {
            contribution(s)
        } else {
            Seq::empty()
        }),
{
    let next = merge_section(sections, snap, obj, s)->Ok_0;
    assert(content_of(sections, name) + Seq::<u8>::empty() =~= content_of(sections, name));
    if is_merged(s) {
        let names = section_names(sections);
        let p = position(names, s.name);
        lemma_position(names, s.name);
        lemma_position(names, name);
        let q = position(names, name);
        if p < sections.len() {
            assert(section_names(next) =~= names);
            if q == p {
                assert(names[q] == name);
            }
        } else {
            assert(section_names(next) =~= names.push(s.name));
            assert(section_names(next).drop_last() =~= names);
            if s.name == name {
                lemma_position_is(section_names(next), name, sections.len() as int);
                assert(Seq::<u8>::empty() + contribution(s) =~= contribution(s));
            } else {
                lemma_position_is(
                    section_names(next),
                    name,
                    if q < sections.len() {
                        q
                    } else {
                        next.len() as int
                    },
                );
            }
        }
    }
}

/// A symbol is rebased by the size that its section had before its object:
/// an input symbol that defines something is found afterwards under its
/// name, in the output section of the name of its input section, at its
/// value plus the size that this output section had before the object was
/// merged in.
pub proof fn lemma_symbol_rebased(
    d: Defined,
    snap: Seq<SectionView>,
    obj: InputObjectView,
    shared: bool,
    sym: InputSymbolView,
)
    requires
        define_symbol(d, snap, obj, shared, sym) is Ok,
        !is_skipped(sym),
    ensures
        ({
            let after = define_symbol(d, snap, obj, shared, sym)->Ok_0.symbols;
            let p = position(symbol_names(after), sym.name);
            let section = obj.sections[sym.place->Section_0 as int];
            &&& sym.place is Section
            &&& p < after.len()
            &&& after[p].name == sym.name
            &&& after[p].section_name == section.name
            &&& after[p].offset == sym.address + base_of(snap, section.name)
            &&& after[p].is_global == sym.is_global
            &&& !after[p].is_plt
        }),
{
    let after = define_symbol(d, snap, obj, shared, sym)->Ok_0.symbols;
    let names = symbol_names(d.symbols);
    let p = position(names, sym.name);
    lemma_position(names, sym.name);
    if p < d.symbols.len() {
        assert(symbol_names(after) =~= names);
    } else {
        assert(symbol_names(after) =~= names.push(sym.name));
        lemma_position_is(symbol_names(after), sym.name, d.symbols.len() as int);
    }
}

/// A relocation that can be applied patches its place and nothing else. The
/// bytes at its place are its value, least significant byte first: all 64
/// bits where it is 8 bytes wide, the low 32 bits where it is 4 bytes wide.
/// The value is `S + A` for an absolute relocation and `S + A - P` for a
/// relative one, in 64 bits, `S` being the address of the target, `A` the
/// addend and `P` the address of the place.
pub proof fn lemma_relocation_patches(
    content: Seq<u8>,
    r: RelocationView,
    base: u64,
    owner: Seq<char>,
    addresses: Map<Seq<char>, u64>,
    symbols: Seq<SymbolView>,
)
    requires
        apply_one(content, r, base, owner, addresses, symbols) is Ok,
    ensures
        ({
            let after = apply_one(content, r, base, owner, addresses, symbols)->Ok_0;
            let s = target_address(addresses, symbols, r.target)->Ok_0;
            let place = base.wrapping_add(r.offset);
            let width = patch_width(r)->Some_0;
            let value = if r.kind == RelocationKind::Absolute {
                s.wrapping_add_signed(r.addend)
            } else {
                s.wrapping_add_signed(r.addend).wrapping_sub(place)
            };
            &&& target_address(addresses, symbols, r.target) is Ok
            &&& patch_width(r) is Some
            &&& width == 4 || width == 8
            &&& r.offset + width <= content.len()
            &&& after.len() == content.len()
            &&& after.subrange(r.offset as int, r.offset + width) == (if width == 8 {
                le64(value)
            } else {
                le32(value as u32)
            })
            &&& forall|i: int|
                0 <= i < content.len() && !(r.offset <= i < r.offset + width) ==> after[i]
                    == content[i]
        }),
{
    let after = apply_one(content, r, base, owner, addresses, symbols)->Ok_0;
    let s = target_address(addresses, symbols, r.target)->Ok_0;
    let place = base.wrapping_add(r.offset);
    let width = patch_width(r)->Some_0;
    let bytes = patch_bytes(r, s, place);
    assert(bytes.len() == width);
    assert(after.subrange(r.offset as int, r.offset + width) =~= bytes);
}

/// The relocation `b` patches no byte between `lo` and `hi`.
pub open spec fn patches_outside(b: RelocationView, lo: int, hi: int) -> bool {
    match patch_width(b) {
        Some(width) => b.offset + width <= lo || hi <= b.offset,
        None => true,
    }
}

/// Applying relocations from index `i` on, none of which patches a byte
/// between `lo` and `hi`, leaves those bytes as they are.
proof fn lemma_outside_stays(
    content: Seq<u8>,
    relocations: Seq<RelocationView>,
    i: int,
    base: u64,
    owner: Seq<char>,
    addresses: Map<Seq<char>, u64>,
    symbols: Seq<SymbolView>,
    lo: int,
    hi: int,
)
    requires
        0 <= i,
        0 <= lo <= hi <= content.len(),
        apply_from(content, relocations, i, base, owner, addresses, symbols) is Ok,
        forall|l: int|
            i <= l < relocations.len() ==> patches_outside(#[trigger] relocations[l], lo, hi),
    ensures
        apply_from(content, relocations, i, base, owner, addresses, symbols)->Ok_0.len()
            == content.len(),
        apply_from(content, relocations, i, base, owner, addresses, symbols)->Ok_0.subrange(lo, hi)
            == content.subrange(lo, hi),
    decreases relocations.len() - i,
{
    if i < relocations.len() {
        let next = apply_one(content, relocations[i], base, owner, addresses, symbols)->Ok_0;
        lemma_relocation_patches(content, relocations[i], base, owner, addresses, symbols);
        assert(patches_outside(relocations[i], lo, hi));
        lemma_outside_stays(next, relocations, i + 1, base, owner, addresses, symbols, lo, hi);
        assert(next.subrange(lo, hi) =~= content.subrange(lo, hi));
    }
}

/// What a relocation patches stays: where no later relocation of the
/// section patches a byte of its place, the section holds at that place, when
/// all its relocations are applied, the bytes that this relocation wrote:
/// its value, least significant byte first.
pub proof fn lemma_patch_stays(
    content: Seq<u8>,
    relocations: Seq<RelocationView>,
    i: int,
    m: int,
    base: u64,
    owner: Seq<char>,
    addresses: Map<Seq<char>, u64>,
    symbols: Seq<SymbolView>,
)
    requires
        0 <= i <= m < relocations.len(),
        apply_from(content, relocations, i, base, owner, addresses, symbols) is Ok,
        patch_width(relocations[m]) is Some ==> forall|l: int|
            m < l < relocations.len() ==> patches_outside(
                #[trigger] relocations[l],
                relocations[m].offset as int,
                relocations[m].offset + patch_width(relocations[m])->Some_0,
            ),
    ensures
        ({
            let last = apply_from(content, relocations, i, base, owner, addresses, symbols)->Ok_0;
            let r = relocations[m];
            let s = target_address(addresses, symbols, r.target);
            &&& s is Ok
            &&& patch_width(r) is Some
            &&& last.len() == content.len()
            &&& r.offset + patch_width(r)->Some_0 <= last.len()
            &&& last.subrange(r.offset as int, r.offset + patch_width(r)->Some_0) == patch_bytes(
                r,
                s->Ok_0,
                base.wrapping_add(r.offset),
            )
        }),
    decreases m - i,
{
    let next = apply_one(content, relocations[i], base, owner, addresses, symbols)->Ok_0;
    lemma_relocation_patches(content, relocations[i], base, owner, addresses, symbols);
    if i < m {
        lemma_patch_stays(next, relocations, i + 1, m, base, owner, addresses, symbols);
    } else {
        let r = relocations[m];
        let width = patch_width(r)->Some_0;
        lemma_outside_stays(
            next,
            relocations,
            m + 1,
            base,
            owner,
            addresses,
            symbols,
            r.offset as int,
            r.offset + width,
        );
    }
}

/// Relocation goes section by section: each section from index `i` on
/// comes out with its own relocations applied to its content, and is
/// otherwise as it was.
pub proof fn lemma_relocated_each(
    sections: Seq<SectionView>,
    i: int,
    load: u64,
    addresses: Map<Seq<char>, u64>,
    symbols: Seq<SymbolView>,
    j: int,
)
    requires
        0 <= i,
        0 <= j < sections.len(),
        relocated_from(sections, i, load, addresses, symbols) is Ok,
    ensures
        relocated_from(sections, i, load, addresses, symbols)->Ok_0.len() == sections.len(),
        j < i ==> relocated_from(sections, i, load, addresses, symbols)->Ok_0[j] == sections[j],
        i <= j ==> relocated_section(sections[j], load, addresses, symbols) is Ok
            && relocated_from(sections, i, load, addresses, symbols)->Ok_0[j] == relocated_section(
            sections[j],
            load,
            addresses,
            symbols,
        )->Ok_0,
    decreases sections.len() - i,
{
    if i < sections.len() {
        let section = relocated_section(sections[i], load, addresses, symbols)->Ok_0;
        lemma_relocated_each(sections.update(i, section), i + 1, load, addresses, symbols, j);
    }
}

/// Merging the sections of an object from index `i` on adds to each output
/// section what the sections of its name contribute.
proof fn lemma_merged_sizes(
    sections: Seq<SectionView>,
    snap: Seq<SectionView>,
    obj: InputObjectView,
    i: int,
    name: Seq<char>,
)
    requires
        0 <= i,
        merge_sections_from(sections, snap, obj, i) is Ok,
    ensures
        base_of(merge_sections_from(sections, snap, obj, i)->Ok_0, name) == base_of(
            sections,
            name,
        ) + contributed(obj, name, i),
    decreases obj.sections.len() - i,
{
    if i < obj.sections.len() {
        let next = merge_section(sections, snap, obj, obj.sections[i])->Ok_0;
        lemma_merged_size(sections, snap, obj, obj.sections[i], name);
        lemma_merged_sizes(next, snap, obj, i + 1, name);
    }
}

/// The content of every output section is as long as the contributions of
/// the inputs add up to: merging an object makes each output section longer
/// by what the sections of its name in that object contribute.
pub proof fn lemma_accreted_sizes(
    before: Accreted,
    obj: InputObjectView,
    shared: bool,
    name: Seq<char>,
)
    requires
        accreted(before, obj, shared) is Ok,
    ensures
        base_of(accreted(before, obj, shared)->Ok_0.sections, name) == base_of(
            before.sections,
            name,
        ) + contributed(obj, name, 0),
{
    lemma_merged_sizes(before.sections, before.sections, obj, 0, name);
}

/// No symbol that lies in an output section lies beyond the end of that
/// section.
pub open spec fn within_sections(sections: Seq<SectionView>, symbols: Seq<SymbolView>) -> bool {
    forall|k: int|
        0 <= k < symbols.len() && is_output_section(sections, (#[trigger] symbols[k]).section_name)
            ==> symbols[k].offset <= base_of(sections, symbols[k].section_name)
}

/// The output has a section called `name`.
pub open spec fn is_output_section(sections: Seq<SectionView>, name: Seq<char>) -> bool {
    position(section_names(sections), name) < sections.len()
}

/// The input symbol lies in a section of its object and not beyond the end
/// of that section; where that section is left out of the output, no section
/// of the output `after` bears its name.
pub open spec fn is_sound(obj: InputObjectView, sym: InputSymbolView, after: Seq<SectionView>)
    -> bool {
    match sym.place {
        SymbolPlace::Section(si) => {
            &&& si < obj.sections.len()
            &&& sym.address <= contribution(obj.sections[si as int]).len()
            &&& !is_merged(obj.sections[si as int]) ==> !is_output_section(
                after,
                obj.sections[si as int].name,
            )
        },
        _ => false,
    }
}

/// Every symbol that the object defines is sound.
pub open spec fn has_sound_symbols(obj: InputObjectView, after: Seq<SectionView>) -> bool {
    forall|k: int|
        1 <= k < obj.symbols.len() && !is_skipped(#[trigger] obj.symbols[k]) ==> is_sound(
            obj,
            obj.symbols[k],
            after,
        )
}

/// What an object contributes to an output section is at least what one of
/// its sections of that name contributes.
pub proof fn lemma_contributed_at_least(obj: InputObjectView, i: int, si: int)
    requires
        0 <= i <= si < obj.sections.len(),
        is_merged(obj.sections[si]),
    ensures
        contributed(obj, obj.sections[si].name, i) >= contribution(obj.sections[si]).len(),
    decreases si - i,
{
    if i < si {
        lemma_contributed_at_least(obj, i + 1, si);
    }
}

/// Entering the symbols of an object from index `i` on keeps every symbol
/// within the sections `after`, if those hold what the object contributes.
proof fn lemma_defined_within(
    d: Defined,
    snap: Seq<SectionView>,
    obj: InputObjectView,
    shared: bool,
    i: int,
    after: Seq<SectionView>,
)
    requires
        1 <= i,
        define_symbols_from(d, snap, obj, shared, i) is Ok,
        within_sections(after, d.symbols),
        has_sound_symbols(obj, after),
        forall|name: Seq<char>|
            #[trigger] base_of(after, name) == base_of(snap, name) + contributed(obj, name, 0),
    ensures
        within_sections(after, define_symbols_from(d, snap, obj, shared, i)->Ok_0.symbols),
    decreases obj.symbols.len() - i,
{
    if i < obj.symbols.len() {
        let sym = obj.symbols[i];
        let next = define_symbol(d, snap, obj, shared, sym)->Ok_0;
        if !is_skipped(sym) {
            let si = sym.place->Section_0 as int;
            let name = obj.sections[si].name;
            if is_merged(obj.sections[si]) {
                lemma_contributed_at_least(obj, 0, si);
            }
            assert(base_of(after, name) == base_of(snap, name) + contributed(obj, name, 0));
            let p = position(symbol_names(d.symbols), sym.name);
            lemma_position(symbol_names(d.symbols), sym.name);
            assert forall|k: int|
                0 <= k < next.symbols.len() && is_output_section(
                    after,
                    (#[trigger] next.symbols[k]).section_name,
                ) implies next.symbols[k].offset <= base_of(after, next.symbols[k].section_name) by {
                if k != p {
                    assert(next.symbols[k] == d.symbols[k]);
                }
            }
        }
        lemma_defined_within(next, snap, obj, shared, i + 1, after);
    }
}

/// No symbol of an output section lies beyond the end of that section:
/// merging an object keeps it so, where no symbol of the object lies beyond
/// the end of its input section. What is left out is a clash of names: a
/// symbol in a section that is kept out of the output, while the output has
/// a section of that name.
pub proof fn lemma_accreted_symbols_within(before: Accreted, obj: InputObjectView, shared: bool)
    requires
        accreted(before, obj, shared) is Ok,
        within_sections(before.sections, before.symbols),
        has_sound_symbols(obj, accreted(before, obj, shared)->Ok_0.sections),
        forall|k: int|
            0 <= k < before.symbols.len() && is_output_section(
                accreted(before, obj, shared)->Ok_0.sections,
                (#[trigger] before.symbols[k]).section_name,
            ) ==> is_output_section(before.sections, before.symbols[k].section_name),
    ensures
        within_sections(
            accreted(before, obj, shared)->Ok_0.sections,
            accreted(before, obj, shared)->Ok_0.symbols,
        ),
{
    let after = accreted(before, obj, shared)->Ok_0;
    assert forall|name: Seq<char>| #[trigger]
        base_of(after.sections, name) == base_of(before.sections, name) + contributed(
            obj,
            name,
            0,
        ) by {
        lemma_accreted_sizes(before, obj, shared, name);
    }
    assert(within_sections(after.sections, before.symbols)) by {
        assert forall|k: int|
            0 <= k < before.symbols.len() && is_output_section(
                after.sections,
                (#[trigger] before.symbols[k]).section_name,
            ) implies before.symbols[k].offset <= base_of(
            after.sections,
            before.symbols[k].section_name,
        ) by {
            lemma_accreted_sizes(before, obj, shared, before.symbols[k].section_name);
        }
    }
    lemma_defined_within(
        Defined { symbols: before.symbols, exports: before.exports },
        before.sections,
        obj,
        shared,
        1,
        after.sections,
    );
}

/// What is written keeps what was written before it.
proof fn lemma_sections_image_prefix(
    buffer: Seq<u8>,
    sections: Seq<crate::model::OutputSection>,
    n: int,
    i: int,
)
    requires
        0 <= i < buffer.len(),
    ensures
        sections_image(buffer, sections, n).len() >= buffer.len(),
        sections_image(buffer, sections, n)[i] == buffer[i],
    decreases n,
{
    if n > 0 {
        lemma_sections_image_prefix(buffer, sections, n - 1, i);
    }
}

proof fn lemma_relas_image_prefix(
    buffer: Seq<u8>,
    relas: Seq<crate::model::OutputRelocationSection>,
    base: u64,
    n: int,
    i: int,
)
    requires
        0 <= i < buffer.len(),
    ensures
        relas_image(buffer, relas, base, n).len() >= buffer.len(),
        relas_image(buffer, relas, base, n)[i] == buffer[i],
    decreases n,
{
    if n > 0 {
        lemma_relas_image_prefix(buffer, relas, base, n - 1, i);
    }
}

/// Each of the sections has the offset that the layout gives it behind
/// `start` bytes.
#[verifier::opaque]
pub open spec fn placed_from(start: nat, sections: Seq<OutputSection>) -> bool {
    forall|k: int|
        0 <= k < sections.len() ==> (#[trigger] sections[k]).offset == placed_at(
            start,
            content_lens(sections),
            4096,
            k,
        )
}

proof fn lemma_placed_from(start: nat, sections: Seq<OutputSection>, k: int)
    requires
        placed_from(start, sections),
        0 <= k < sections.len(),
    ensures
        sections[k].offset == placed_at(start, content_lens(sections), 4096, k),
        content_lens(sections)[k] == sections[k].content@.len(),
{
    reveal(placed_from);
}

/// Where the region of index `n - 1` ends: at its place plus its length.
proof fn lemma_placed_step(start: nat, lens: Seq<nat>, align: nat, n: int)
    requires
        n > 0,
    ensures
        placed_end(start, lens, align, n) == placed_at(start, lens, align, n - 1) + lens[n - 1],
{
    reveal(placed_end);
}

/// The sections written behind `buffer` end where the layout says.
proof fn lemma_sections_image_len(buffer: Seq<u8>, sections: Seq<OutputSection>, n: int)
    requires
        0 <= n <= sections.len(),
        placed_from(buffer.len(), sections),
    ensures
        sections_image(buffer, sections, n).len() == placed_end(
            buffer.len(),
            content_lens(sections),
            4096,
            n,
        ),
    decreases n,
{
    if n > 0 {
        lemma_sections_image_len(buffer, sections, n - 1);
        lemma_placed_from(buffer.len(), sections, n - 1);
        lemma_placed_step(buffer.len(), content_lens(sections), 4096, n);
        lemma_align_up(placed_end(buffer.len(), content_lens(sections), 4096, n - 1), 4096);
    } else {
        assert(placed_end(buffer.len(), content_lens(sections), 4096, 0) == buffer.len()) by {
            reveal(placed_end);
        }
    }
}

/// None of the sections written behind `buffer` reaches beyond what is
/// written.
proof fn lemma_sections_image_bound(
    buffer: Seq<u8>,
    sections: Seq<OutputSection>,
    n: int,
    i: int,
)
    requires
        0 <= i < n <= sections.len(),
        placed_from(buffer.len(), sections),
    ensures
        sections[i].offset + sections[i].content@.len() <= sections_image(
            buffer,
            sections,
            n,
        ).len(),
{
    lemma_sections_image_len(buffer, sections, n);
    lemma_placed_from(buffer.len(), sections, i);
    lemma_placed_step(buffer.len(), content_lens(sections), 4096, i + 1);
    lemma_placed_monotone(buffer.len(), content_lens(sections), 4096, i + 1, n);
}

/// Each of the sections written behind `buffer` stands at its offset.
proof fn lemma_sections_image_at(
    buffer: Seq<u8>,
    sections: Seq<OutputSection>,
    n: int,
    i: int,
    j: int,
)
    requires
        0 <= i < n <= sections.len(),
        0 <= j < sections[i].content@.len(),
        placed_from(buffer.len(), sections),
    ensures
        sections[i].offset + j < sections_image(buffer, sections, n).len(),
        sections_image(buffer, sections, n)[sections[i].offset + j] == sections[i].content@[j],
    decreases n,
{
    let lens = content_lens(sections);
    let before = sections_image(buffer, sections, n - 1);
    lemma_sections_image_len(buffer, sections, n - 1);
    lemma_placed_from(buffer.len(), sections, n - 1);
    lemma_align_up(placed_end(buffer.len(), lens, 4096, n - 1), 4096);
    let gap = zeros((sections[n - 1].offset - before.len()) as nat);
    assert(sections_image(buffer, sections, n) == before + gap + sections[n - 1].content@);
    if i < n - 1 {
        lemma_sections_image_at(buffer, sections, n - 1, i, j);
    }
}

impl Linker {
    /// The output file begins with its front: what comes behind the output
    /// sections and the dynamic relocations changes none of their bytes.
    proof fn lemma_image_front(&self, p: WriterModel, i: int)
        requires
            self.image(p) is Ok,
            self.front_image(p) is Ok ==> 0 <= i < self.front_image(p)->Ok_0.len(),
        ensures
            self.front_image(p) is Ok,
            i < self.image(p)->Ok_0.len(),
            self.image(p)->Ok_0[i] == self.front_image(p)->Ok_0[i],
    {
        reveal(Linker::hashes_image);
        let front = self.front_image(p)->Ok_0;
        let tables = self.tables_image(p, front)->Ok_0;
        assert(i < tables.len() && tables[i] == front[i]);
        let image = self.image(p)->Ok_0;
        if self.opt.shared || self.dynamic_link {
            let entries = self.entries_part(p)->Ok_0;
            let symbols = self.dynsym_part(p)->Ok_0;
            let middle = padded(padded(tables, 8) + entries, 8) + symbols;
            assert(i < middle.len() && middle[i] == tables[i]);
            assert(image == self.hashes_image(middle));
        }
    }

    /// The front of the output file begins with the file header and the
    /// program headers, and holds every output section at its offset.
    proof fn lemma_front(&self, p: WriterModel)
        requires
            self.front_image(p) is Ok,
        ensures
            ({
                let front = self.front_image(p)->Ok_0;
                let entry = crate::image::entry_point(
                    self.opt.shared,
                    views(self.symbols@),
                    self.addresses(),
                );
                let headers = self.program_headers_of(p.reserved as u64);
                let first = file_header_bytes(
                    crate::image::file_header(self.opt.shared, entry->Ok_0),
                    p,
                ) + program_headers_image(headers->Ok_0, headers->Ok_0.len() as int);
                &&& entry is Ok
                &&& headers is Ok
                &&& self.rela_base() is Ok
                &&& first.len() == 64 + 56 * headers->Ok_0.len()
                &&& first.subrange(0, 64) == file_header_bytes(
                    crate::image::file_header(self.opt.shared, entry->Ok_0),
                    p,
                )
                &&& first.subrange(64, first.len() as int) == program_headers_image(
                    headers->Ok_0,
                    headers->Ok_0.len() as int,
                )
                &&& front == relas_image(
                    sections_image(
                        first,
                        self.output_sections@,
                        self.output_sections@.len() as int,
                    ),
                    self.output_relocations@,
                    self.rela_base()->Ok_0,
                    self.output_relocations@.len() as int,
                )
            }),
    {
        reveal(Linker::front_image);
        let entry = crate::image::entry_point(
            self.opt.shared,
            views(self.symbols@),
            self.addresses(),
        )->Ok_0;
        let header = file_header_bytes(crate::image::file_header(self.opt.shared, entry), p);
        let headers = self.program_headers_of(p.reserved as u64)->Ok_0;
        let table = program_headers_image(headers, headers.len() as int);
        lemma_program_headers_len(headers, headers.len() as int);
        assert(header.len() == 64);
        assert((header + table).subrange(0, 64) =~= header);
        assert((header + table).subrange(64, (header + table).len() as int) =~= table);
    }

    /// The output file holds the file header and the program headers as its
    /// front does.
    proof fn lemma_image_first(&self, p: WriterModel, first: Seq<u8>, i: int)
        requires
            self.image(p) is Ok,
            self.front_image(p) is Ok,
            self.rela_base() is Ok,
            self.front_image(p)->Ok_0 == relas_image(
                sections_image(first, self.output_sections@, self.output_sections@.len() as int),
                self.output_relocations@,
                self.rela_base()->Ok_0,
                self.output_relocations@.len() as int,
            ),
            0 <= i < first.len(),
        ensures
            i < self.image(p)->Ok_0.len(),
            self.image(p)->Ok_0[i] == first[i],
    {
        let sections = self.output_sections@;
        let relas = self.output_relocations@;
        let middle = sections_image(first, sections, sections.len() as int);
        lemma_sections_image_prefix(first, sections, sections.len() as int, i);
        lemma_relas_image_prefix(middle, relas, self.rela_base()->Ok_0, relas.len() as int, i);
        self.lemma_image_front(p, i);
    }

    /// Every output section stands in the output file at its offset, byte
    /// for byte.
    pub proof fn lemma_section_in_image(&self, p: WriterModel, i: int)
        requires
            self.ready_to_write(p),
            self.image(p) is Ok,
            0 <= i < self.output_sections@.len(),
        ensures
            self.output_sections@[i].offset + self.output_sections@[i].content@.len()
                <= self.image(p)->Ok_0.len(),
            self.image(p)->Ok_0.subrange(
                self.output_sections@[i].offset as int,
                self.output_sections@[i].offset + self.output_sections@[i].content@.len(),
            ) == self.output_sections@[i].content@,
    {
        self.lemma_front(p);
        let entry = crate::image::entry_point(
            self.opt.shared,
            views(self.symbols@),
            self.addresses(),
        )->Ok_0;
        let header = file_header_bytes(crate::image::file_header(self.opt.shared, entry), p);
        let headers = self.program_headers_of(p.reserved as u64)->Ok_0;
        let first = header + program_headers_image(headers, headers.len() as int);
        let base = self.rela_base()->Ok_0;
        let sections = self.output_sections@;
        let relas = self.output_relocations@;
        let n = sections.len() as int;
        let middle = sections_image(first, sections, n);
        let front = self.front_image(p)->Ok_0;
        let image = self.image(p)->Ok_0;
        let section = sections[i];
        assert(placed_from(first.len(), sections)) by {
            reveal(Linker::ready_to_write);
            reveal(placed_from);
        }
        lemma_sections_image_bound(first, sections, n, i);
        assert(middle.len() >= 64) by {
            lemma_sections_image_prefix(first, sections, n, 0);
        }
        lemma_relas_image_prefix(middle, relas, base, relas.len() as int, middle.len() - 1);
        self.lemma_image_front(p, front.len() - 1);
        assert forall|j: int| 0 <= j < section.content@.len() implies image[section.offset + j]
            == section.content@[j] by {
            lemma_sections_image_at(first, sections, n, i, j);
            lemma_relas_image_prefix(middle, relas, base, relas.len() as int, section.offset + j);
            self.lemma_image_front(p, section.offset + j);
        }
        assert(image.subrange(
            section.offset as int,
            section.offset + section.content@.len(),
        ) =~= section.content@);
    }

    /// The output file begins with the file header, and the program headers
    /// follow it. An executable that imports nothing has one program header,
    /// which loads the whole file, as long as was reserved, at the load
    /// address. A shared object has the entry point 0 and the type of a
    /// shared object, any other output the type of an executable.
    pub proof fn lemma_headers_in_image(&self, p: WriterModel)
        requires
            self.image(p) is Ok,
        ensures
            ({
                let image = self.image(p)->Ok_0;
                let entry = crate::image::entry_point(
                    self.opt.shared,
                    views(self.symbols@),
                    self.addresses(),
                );
                let headers = self.program_headers_of(p.reserved as u64);
                &&& entry is Ok
                &&& headers is Ok
                &&& image.len() >= 64 + 56 * headers->Ok_0.len()
                &&& image.subrange(0, 64) == file_header_bytes(
                    crate::image::file_header(self.opt.shared, entry->Ok_0),
                    p,
                )
                &&& image.subrange(64, (64 + 56 * headers->Ok_0.len()) as int)
                    == program_headers_image(headers->Ok_0, headers->Ok_0.len() as int)
                &&& !self.opt.shared && !self.dynamic_link ==> headers->Ok_0 == seq![
                    crate::image::load_header(self.load_address, p.reserved as u64),
                ]
                &&& self.opt.shared ==> entry->Ok_0 == 0
                &&& crate::image::file_header(self.opt.shared, entry->Ok_0).e_type == (
                if self.opt.shared {
                    crate::image::ET_DYN
                } else {
                    crate::image::ET_EXEC
                })
            }),
    {
        self.lemma_front(p);
        let entry = crate::image::entry_point(
            self.opt.shared,
            views(self.symbols@),
            self.addresses(),
        )->Ok_0;
        let header = file_header_bytes(crate::image::file_header(self.opt.shared, entry), p);
        let headers = self.program_headers_of(p.reserved as u64)->Ok_0;
        let table = program_headers_image(headers, headers.len() as int);
        let first = header + table;
        let image = self.image(p)->Ok_0;
        let n = first.len() as int;
        self.lemma_image_first(p, first, n - 1);
        assert forall|i: int| 0 <= i < 64 implies image[i] == header[i] by {
            self.lemma_image_first(p, first, i);
            assert(first.subrange(0, 64)[i] == first[i]);
        }
        assert forall|i: int| 0 <= i < n - 64 implies image[64 + i] == table[i] by {
            self.lemma_image_first(p, first, 64 + i);
            assert(first.subrange(64, n)[i] == first[64 + i]);
        }
        assert(image.subrange(0, 64) =~= header);
        assert(image.subrange(64, n) =~= table);
    }

    /// The output file begins as an ELF file does: with the magic number,
    /// and then the marks of 64-bit objects, of little-endian data and of
    /// version 1.
    pub proof fn lemma_image_ident(&self, p: WriterModel)
        requires
            self.image(p) is Ok,
        ensures
            self.image(p)->Ok_0.len() >= 64,
            self.image(p)->Ok_0.subrange(0, 7) == seq![0x7fu8, 0x45, 0x4c, 0x46, 2, 1, 1],
    {
        self.lemma_headers_in_image(p);
        let entry = crate::image::entry_point(
            self.opt.shared,
            views(self.symbols@),
            self.addresses(),
        )->Ok_0;
        let header = file_header_bytes(crate::image::file_header(self.opt.shared, entry), p);
        let image = self.image(p)->Ok_0;
        assert(header.len() == 64);
        assert forall|i: int| 0 <= i < 7 implies image[i] == header[i] by {
            assert(image.subrange(0, 64)[i] == image[i]);
        }
        assert(image.subrange(0, 7) =~= seq![0x7fu8, 0x45, 0x4c, 0x46, 2, 1, 1]);
    }

    /// No part of the file that a program header names reaches beyond the
    /// end of the file.
    pub proof fn lemma_segments_within_file(&self, p: WriterModel, k: int)
        requires
            self.ready_to_write(p),
            p.reserved <= u64::MAX,
            self.program_headers_of(p.reserved as u64) is Ok,
            0 <= k < self.program_headers_of(p.reserved as u64)->Ok_0.len(),
        ensures
            ({
                let h = self.program_headers_of(p.reserved as u64)->Ok_0[k];
                h.p_offset + h.p_filesz <= p.reserved
            }),
    {
        reveal(Linker::ready_to_write);
        let shape = self.shape();
        lemma_layout_order(shape, p);
        if !self.opt.shared && self.dynamic_link {
            let names = section_names(views(self.output_sections@));
            let q = position(names, ".interp"@);
            lemma_position(names, ".interp"@);
            self.lemma_section_within_file(p, q);
        }
    }

    /// No output section reaches beyond the end of the file.
    pub proof fn lemma_section_within_file(&self, p: WriterModel, i: int)
        requires
            self.ready_to_write(p),
            0 <= i < self.output_sections@.len(),
        ensures
            self.output_sections@[i].offset + self.output_sections@[i].content@.len()
                <= p.reserved,
    {
        reveal(Linker::ready_to_write);
        reveal(placed_end);
        let shape = self.shape();
        lemma_layout_order(shape, p);
        lemma_placed_monotone(
            shape.headers_end(),
            shape.section_lens,
            4096,
            i + 1,
            shape.section_lens.len() as int,
        );
        assert(shape.section_lens[i] == self.output_sections@[i].content@.len());
    }

    /// The first output section stands at offset 4096 of the file: the file
    /// header and the program headers, three at most, fill less than a page.
    pub proof fn lemma_first_section_offset(&self, p: WriterModel)
        requires
            self.placed_in(p),
            self.output_sections@.len() > 0,
        ensures
            self.output_sections@[0].offset == 4096,
    {
        let shape = self.shape();
        assert(placed_end(shape.headers_end(), shape.section_lens, 4096, 0)
            == shape.headers_end()) by {
            reveal(placed_end);
        }
        assert(self.output_sections@[0].offset == placed_at(
            shape.headers_end(),
            shape.section_lens,
            4096,
            0,
        ));
    }

    /// No section of dynamic relocations reaches beyond the end of the file.
    pub proof fn lemma_relocations_within_file(&self, p: WriterModel, j: int)
        requires
            self.ready_to_write(p),
            0 <= j < self.output_relocations@.len(),
        ensures
            self.output_relocations@[j].offset + 24 * self.output_relocations@[j].relocations@.len()
                <= p.reserved,
    {
        reveal(Linker::ready_to_write);
        reveal(placed_end);
        let shape = self.shape();
        lemma_layout_order(shape, p);
        lemma_placed_monotone(
            shape.sections_end(),
            shape.rela_lens,
            8,
            j + 1,
            shape.rela_lens.len() as int,
        );
        assert(shape.rela_lens[j] == self.output_relocations@[j].relocations@.len() * 24);
    }

    /// A linker that is ready to write holds the places of the reservation,
    /// and the string tables of the reservation are laid out.
    pub proof fn lemma_ready_to_write(&self, p: WriterModel)
        requires
            self.ready_to_write(p),
        ensures
            self.placed_in(p),
            is_laid_out(p.strtab),
            is_laid_out(p.shstrtab),
            self.shape().has_dynamic() ==> is_laid_out(p.dynstr),
    {
        reveal(Linker::ready_to_write);
    }

    /// The names that the dynamic table gives stand in the output file. Each
    /// needed shared object has its entry under `DT_NEEDED`, in order, right
    /// before `DT_NULL`, and the string that the entry gives is, in
    /// `bytes`, the name of the shared object. A shared output with a name
    /// has it under `DT_SONAME`, and the string that this entry gives is, in
    /// `bytes`, that name.
    pub proof fn lemma_dynamic_table_names(&self, p: WriterModel, bytes: Seq<u8>, strsz: u64)
        requires
            self.ready_to_write(p),
            self.shape().has_dynamic(),
            self.tables_stand(bytes, p),
            self.dynamic_entries(strsz) is Ok,
        ensures
            ({
                let entries = self.dynamic_entries(strsz)->Ok_0;
                let first = entries.len() - 1 - self.needed@.len();
                &&& first >= 4
                &&& forall|k: int|
                    0 <= k < self.needed@.len() ==> {
                        let id = (#[trigger] self.needed@[k]).name_string_id;
                        &&& id is Some
                        &&& entries[first + k] == string(DT_NEEDED, id->Some_0)
                        &&& holds_at(
                            bytes,
                            p.dynstr_offset + offset_of(p.dynstr, id),
                            name_bytes(self.needed@[k].name@),
                        )
                    }
                &&& self.opt.soname is Some ==> {
                    let id = self.soname_dynamic_string_index;
                    &&& id is Some
                    &&& entries.contains(string(DT_SONAME, id->Some_0))
                    &&& holds_at(
                        bytes,
                        p.dynstr_offset + offset_of(p.dynstr, id),
                        name_bytes(self.opt.soname->Some_0@),
                    )
                }
            }),
    {
        self.lemma_names_in_file(p, bytes);
        let info = self.dynamic_info(strsz)->Ok_0;
        let ids = needed_ids_from(self.needed@, 0, Seq::empty())->Ok_0;
        lemma_needed_ids(self.needed@, 0, Seq::empty());
        lemma_dynamic_names(info, ids);
        let entries = self.dynamic_entries(strsz)->Ok_0;
        let first = entries.len() - 1 - self.needed@.len();
        assert forall|k: int| 0 <= k < self.needed@.len() implies ({
            let id = (#[trigger] self.needed@[k]).name_string_id;
            &&& id is Some
            &&& entries[first + k] == string(DT_NEEDED, id->Some_0)
        }) by {
            assert(entries[first + k] == string(DT_NEEDED, ids[k]));
        }
        if self.opt.soname is Some {
            reveal(Linker::ready_to_write);
            assert(info.soname == self.soname_dynamic_string_index);
        }
    }

    /// Every name stands in the output file: where the tables stand in
    /// `bytes` as reserved, the name of each section stands at the offset
    /// of `.shstrtab` plus the offset that its header gives, the name of
    /// each symbol at the offset of `.strtab` plus the offset that its record
    /// gives, and, where the output has dynamic tables, the names of the
    /// needed shared objects, of the output and of the dynamic symbols at the
    /// offset of `.dynstr` plus the offsets that the dynamic table and the
    /// records of `.dynsym` give. Each is ended by a zero byte.
    pub proof fn lemma_names_in_file(&self, p: WriterModel, bytes: Seq<u8>)
        requires
            self.ready_to_write(p),
            self.tables_stand(bytes, p),
        ensures
            forall|i: int|
                0 <= i < self.output_sections@.len() ==> holds_at(
                    bytes,
                    p.shstrtab_offset + offset_of(
                        p.shstrtab,
                        (#[trigger] self.output_sections@[i]).name_string_id,
                    ),
                    name_bytes(self.output_sections@[i].name@),
                ),
            forall|i: int|
                0 <= i < self.output_relocations@.len() ==> holds_at(
                    bytes,
                    p.shstrtab_offset + offset_of(
                        p.shstrtab,
                        (#[trigger] self.output_relocations@[i]).name_string_id,
                    ),
                    name_bytes(self.output_relocations@[i].name@),
                ),
            forall|i: int|
                0 <= i < self.symbols@.len() ==> holds_at(
                    bytes,
                    p.strtab_offset + offset_of(
                        p.strtab,
                        (#[trigger] self.symbols@[i]).symbol_name_string_id,
                    ),
                    name_bytes(self.symbols@[i].name@),
                ),
            self.shape().has_dynamic() ==> {
                &&& forall|i: int|
                    0 <= i < self.needed@.len() ==> holds_at(
                        bytes,
                        p.dynstr_offset + offset_of(
                            p.dynstr,
                            (#[trigger] self.needed@[i]).name_string_id,
                        ),
                        name_bytes(self.needed@[i].name@),
                    )
                &&& self.opt.soname is Some ==> holds_at(
                    bytes,
                    p.dynstr_offset + offset_of(p.dynstr, self.soname_dynamic_string_index),
                    name_bytes(self.opt.soname->Some_0@),
                )
                &&& forall|k: int|
                    0 <= k < self.plt_dynamic_symbols@.len() ==> self.dynamic_name_in_file(
                        p,
                        bytes,
                        (#[trigger] self.plt_dynamic_symbols@[k]).name@,
                    )
                &&& forall|k: int|
                    0 <= k < self.dynamic_symbols@.len() ==> self.dynamic_name_in_file(
                        p,
                        bytes,
                        (#[trigger] self.dynamic_symbols@[k]).name@,
                    )
            },
    {
        self.lemma_names_in_tables(p);
        assert forall|i: int| 0 <= i < self.output_sections@.len() implies holds_at(
            bytes,
            p.shstrtab_offset + offset_of(
                p.shstrtab,
                (#[trigger] self.output_sections@[i]).name_string_id,
            ),
            name_bytes(self.output_sections@[i].name@),
        ) by {
            lemma_holds_in_file(
                bytes,
                p.shstrtab_offset,
                p.shstrtab.data,
                offset_of(p.shstrtab, self.output_sections@[i].name_string_id),
                name_bytes(self.output_sections@[i].name@),
            );
        }
        assert forall|i: int| 0 <= i < self.output_relocations@.len() implies holds_at(
            bytes,
            p.shstrtab_offset + offset_of(
                p.shstrtab,
                (#[trigger] self.output_relocations@[i]).name_string_id,
            ),
            name_bytes(self.output_relocations@[i].name@),
        ) by {
            lemma_holds_in_file(
                bytes,
                p.shstrtab_offset,
                p.shstrtab.data,
                offset_of(p.shstrtab, self.output_relocations@[i].name_string_id),
                name_bytes(self.output_relocations@[i].name@),
            );
        }
        assert forall|i: int| 0 <= i < self.symbols@.len() implies holds_at(
            bytes,
            p.strtab_offset + offset_of(
                p.strtab,
                (#[trigger] self.symbols@[i]).symbol_name_string_id,
            ),
            name_bytes(self.symbols@[i].name@),
        ) by {
            lemma_holds_in_file(
                bytes,
                p.strtab_offset,
                p.strtab.data,
                offset_of(p.strtab, self.symbols@[i].symbol_name_string_id),
                name_bytes(self.symbols@[i].name@),
            );
        }
        if self.shape().has_dynamic() {
            self.lemma_dynamic_names_in_table(p);
            assert forall|i: int| 0 <= i < self.needed@.len() implies holds_at(
                bytes,
                p.dynstr_offset + offset_of(p.dynstr, (#[trigger] self.needed@[i]).name_string_id),
                name_bytes(self.needed@[i].name@),
            ) by {
                lemma_holds_in_file(
                    bytes,
                    p.dynstr_offset,
                    p.dynstr.data,
                    offset_of(p.dynstr, self.needed@[i].name_string_id),
                    name_bytes(self.needed@[i].name@),
                );
            }
            if self.opt.soname is Some {
                lemma_holds_in_file(
                    bytes,
                    p.dynstr_offset,
                    p.dynstr.data,
                    offset_of(p.dynstr, self.soname_dynamic_string_index),
                    name_bytes(self.opt.soname->Some_0@),
                );
            }
            assert forall|k: int|
                0 <= k < self.plt_dynamic_symbols@.len() implies self.dynamic_name_in_file(
                p,
                bytes,
                (#[trigger] self.plt_dynamic_symbols@[k]).name@,
            ) by {
                let name = self.plt_dynamic_symbols@[k].name@;
                let q = position(symbol_names(views(self.symbols@)), name);
                assert(self.dynamic_name_stands(p, name));
                lemma_holds_in_file(
                    bytes,
                    p.dynstr_offset,
                    p.dynstr.data,
                    offset_of(p.dynstr, self.symbols@[q].symbol_name_dynamic_string_id),
                    name_bytes(name),
                );
            }
            assert forall|k: int|
                0 <= k < self.dynamic_symbols@.len() implies self.dynamic_name_in_file(
                p,
                bytes,
                (#[trigger] self.dynamic_symbols@[k]).name@,
            ) by {
                let name = self.dynamic_symbols@[k].name@;
                let q = position(symbol_names(views(self.symbols@)), name);
                assert(self.dynamic_name_stands(p, name));
                lemma_holds_in_file(
                    bytes,
                    p.dynstr_offset,
                    p.dynstr.data,
                    offset_of(p.dynstr, self.symbols@[q].symbol_name_dynamic_string_id),
                    name_bytes(name),
                );
            }
        }
    }

    /// The dynamic symbol called `name` has a record in `.dynsym` that names
    /// a string of `.dynstr`, and in `bytes` that string is `name`, ended by a
    /// zero byte.
    pub open spec fn dynamic_name_in_file(&self, p: WriterModel, bytes: Seq<u8>, name: Seq<char>)
        -> bool {
        let q = position(symbol_names(views(self.symbols@)), name);
        &&& q < self.symbols@.len()
        &&& self.symbols@[q].symbol_name_dynamic_string_id is Some
        &&& self.dynamic_record(name) is Ok ==> self.dynamic_record(name)->Ok_0.name
            == self.symbols@[q].symbol_name_dynamic_string_id
        &&& holds_at(
            bytes,
            p.dynstr_offset + offset_of(p.dynstr, self.symbols@[q].symbol_name_dynamic_string_id),
            name_bytes(name),
        )
    }

    /// The symbol called `name` has its name in `.dynstr`: it is in the symbol
    /// table, it has an identifier of a string of `.dynstr`, and at the
    /// offset of that string `.dynstr` holds `name`, ended by a zero byte.
    /// Its record in `.dynsym`, where it has one, names that string.
    pub open spec fn dynamic_name_stands(&self, p: WriterModel, name: Seq<char>) -> bool {
        let q = position(symbol_names(views(self.symbols@)), name);
        &&& q < self.symbols@.len()
        &&& self.symbols@[q].name@ == name
        &&& self.symbols@[q].symbol_name_dynamic_string_id is Some
        &&& holds_at(
            p.dynstr.data,
            offset_of(p.dynstr, self.symbols@[q].symbol_name_dynamic_string_id),
            name_bytes(name),
        )
        &&& self.dynamic_record(name) is Ok ==> self.dynamic_record(name)->Ok_0.name
            == self.symbols@[q].symbol_name_dynamic_string_id
    }

    /// Every dynamic symbol has its name in `.dynstr`: each import and each
    /// export, so that no record of `.dynsym` but the null symbol goes
    /// without its name.
    pub proof fn lemma_dynamic_names_in_table(&self, p: WriterModel)
        requires
            self.ready_to_write(p),
            self.shape().has_dynamic(),
        ensures
            forall|k: int|
                0 <= k < self.plt_dynamic_symbols@.len() ==> self.dynamic_name_stands(
                    p,
                    (#[trigger] self.plt_dynamic_symbols@[k]).name@,
                ),
            forall|k: int|
                0 <= k < self.dynamic_symbols@.len() ==> self.dynamic_name_stands(
                    p,
                    (#[trigger] self.dynamic_symbols@[k]).name@,
                ),
    {
        reveal(Linker::ready_to_write);
        let names = symbol_names(views(self.symbols@));
        assert forall|k: int| 0 <= k < self.plt_dynamic_symbols@.len() implies self.dynamic_name_stands(
            p,
            (#[trigger] self.plt_dynamic_symbols@[k]).name@,
        ) by {
            let name = self.plt_dynamic_symbols@[k].name@;
            let q = position(names, name);
            lemma_position(names, name);
            assert(names[q] == self.symbols@[q].name@);
            lemma_spelled_name(self.symbols@[q].symbol_name_dynamic_string_id, p.dynstr, name);
        }
        assert forall|k: int| 0 <= k < self.dynamic_symbols@.len() implies self.dynamic_name_stands(
            p,
            (#[trigger] self.dynamic_symbols@[k]).name@,
        ) by {
            let name = self.dynamic_symbols@[k].name@;
            let q = position(names, name);
            lemma_position(names, name);
            assert(names[q] == self.symbols@[q].name@);
            lemma_spelled_name(self.symbols@[q].symbol_name_dynamic_string_id, p.dynstr, name);
        }
    }

    /// Every name stands in its string table: at the offset that the header
    /// of a section gives for the name of the section, `.shstrtab` holds
    /// that name, ended by a zero byte; at the offset that the record of a
    /// symbol gives, `.strtab` holds the name of the symbol; and where the
    /// output has dynamic tables, `.dynstr` holds the name of each needed
    /// shared object and of each symbol that has a name there.
    pub proof fn lemma_names_in_tables(&self, p: WriterModel)
        requires
            self.ready_to_write(p),
        ensures
            forall|i: int|
                0 <= i < self.output_sections@.len() ==> holds_at(
                    p.shstrtab.data,
                    offset_of(p.shstrtab, (#[trigger] self.output_sections@[i]).name_string_id),
                    name_bytes(self.output_sections@[i].name@),
                ),
            forall|i: int|
                0 <= i < self.output_relocations@.len() ==> holds_at(
                    p.shstrtab.data,
                    offset_of(p.shstrtab, (#[trigger] self.output_relocations@[i]).name_string_id),
                    name_bytes(self.output_relocations@[i].name@),
                ),
            forall|i: int|
                0 <= i < self.symbols@.len() ==> holds_at(
                    p.strtab.data,
                    offset_of(p.strtab, (#[trigger] self.symbols@[i]).symbol_name_string_id),
                    name_bytes(self.symbols@[i].name@),
                ),
            self.shape().has_dynamic() ==> {
                &&& forall|i: int|
                    0 <= i < self.symbols@.len() && (
                    #[trigger] self.symbols@[i]).symbol_name_dynamic_string_id is Some
                        ==> holds_at(
                        p.dynstr.data,
                        offset_of(p.dynstr, self.symbols@[i].symbol_name_dynamic_string_id),
                        name_bytes(self.symbols@[i].name@),
                    )
                &&& forall|i: int|
                    0 <= i < self.needed@.len() ==> holds_at(
                        p.dynstr.data,
                        offset_of(p.dynstr, (#[trigger] self.needed@[i]).name_string_id),
                        name_bytes(self.needed@[i].name@),
                    )
                &&& self.opt.soname is Some ==> holds_at(
                    p.dynstr.data,
                    offset_of(p.dynstr, self.soname_dynamic_string_index),
                    name_bytes(self.opt.soname->Some_0@),
                )
            },
    {
        reveal(Linker::ready_to_write);
        assert forall|i: int| 0 <= i < self.output_sections@.len() implies holds_at(
            p.shstrtab.data,
            offset_of(p.shstrtab, (#[trigger] self.output_sections@[i]).name_string_id),
            name_bytes(self.output_sections@[i].name@),
        ) by {
            lemma_spelled_name(
                self.output_sections@[i].name_string_id,
                p.shstrtab,
                self.output_sections@[i].name@,
            );
        }
        assert forall|i: int| 0 <= i < self.output_relocations@.len() implies holds_at(
            p.shstrtab.data,
            offset_of(p.shstrtab, (#[trigger] self.output_relocations@[i]).name_string_id),
            name_bytes(self.output_relocations@[i].name@),
        ) by {
            lemma_spelled_name(
                self.output_relocations@[i].name_string_id,
                p.shstrtab,
                self.output_relocations@[i].name@,
            );
        }
        assert forall|i: int| 0 <= i < self.symbols@.len() implies holds_at(
            p.strtab.data,
            offset_of(p.strtab, (#[trigger] self.symbols@[i]).symbol_name_string_id),
            name_bytes(self.symbols@[i].name@),
        ) by {
            lemma_spelled_name(
                self.symbols@[i].symbol_name_string_id,
                p.strtab,
                self.symbols@[i].name@,
            );
        }
        if self.shape().has_dynamic() {
            assert forall|i: int|
                0 <= i < self.symbols@.len() && (
                #[trigger] self.symbols@[i]).symbol_name_dynamic_string_id is Some implies holds_at(
                p.dynstr.data,
                offset_of(p.dynstr, self.symbols@[i].symbol_name_dynamic_string_id),
                name_bytes(self.symbols@[i].name@),
            ) by {
                lemma_spelled_name(
                    self.symbols@[i].symbol_name_dynamic_string_id,
                    p.dynstr,
                    self.symbols@[i].name@,
                );
            }
            assert forall|i: int| 0 <= i < self.needed@.len() implies holds_at(
                p.dynstr.data,
                offset_of(p.dynstr, (#[trigger] self.needed@[i]).name_string_id),
                name_bytes(self.needed@[i].name@),
            ) by {
                lemma_spelled_name(self.needed@[i].name_string_id, p.dynstr, self.needed@[i].name@);
            }
            if self.opt.soname is Some {
                lemma_spelled_name(
                    self.soname_dynamic_string_index,
                    p.dynstr,
                    self.opt.soname->Some_0@,
                );
            }
        }
    }

    /// No table of the file reaches beyond the end of the file: not the
    /// section headers, not the symbol and string tables, and not the dynamic
    /// tables.
    pub proof fn lemma_tables_within_file(&self, p: WriterModel)
        requires
            self.ready_to_write(p),
        ensures
            p.section_offset + 64 * p.section_num <= p.reserved,
            p.symtab_offset + 24 * p.symtab_num <= p.reserved,
            p.strtab_offset + p.strtab.data.len() <= p.reserved,
            p.shstrtab_offset + p.shstrtab.data.len() <= p.reserved,
            self.shape().has_dynamic() ==> {
                &&& p.dynamic_offset + 16 * p.dynamic_num <= p.reserved
                &&& p.dynsym_offset + 24 * p.dynsym_num <= p.reserved
                &&& p.dynstr_offset + p.dynstr.data.len() <= p.reserved
                &&& self.opt.hash_style.sysv ==> p.hash_offset + p.hash_size <= p.reserved
                &&& self.opt.hash_style.gnu ==> p.gnu_hash_offset + p.gnu_hash_size <= p.reserved
            },
    {
        reveal(Linker::ready_to_write);
        lemma_layout_order(self.shape(), p);
    }
}

} // verus!
