//! Reservation: every part of the output file gets its place, every name its
//! string, every section its index.

use crate::hash::name_bytes;
use crate::lookup::{find_symbol, lemma_position, position, symbol_names};
use crate::model::{
    DynamicSymbol, LinkError, LinkErrorView, Needed, OutputRelocationSection, OutputSection, Symbol,
};
use crate::text::views;
use crate::writer::{
    add_dynamic_string, add_section_name, add_string, align_up, arena_alloc, is_laid_out,
    next_section_index, reserve, reserve_dynamic_section_index, reserve_dynamic_symbol_index,
    reserve_dynstr_section_index, reserve_dynsym_section_index, reserve_gnu_hash,
    reserve_gnu_hash_section_index, reserve_hash, reserve_hash_section_index,
    reserve_null_symbol_index, reserve_section_headers, reserve_section_index, reserve_shstrtab,
    reserve_shstrtab_section_index, reserve_strtab, reserve_strtab_section_index,
    reserve_symbol_index, reserve_symtab, reserve_symtab_section_index, reserved_len,
    string_id_index, with_named_section, with_string, writer_model, StringTable, WriterModel,
    SHN_LORESERVE,
};
use object::write::elf::Writer;
use object::write::StringId;
use typed_arena::Arena;
use vstd::prelude::*;
use vstd::string::*;

verus! {

/// The alignment of an output section in the file.
pub const SECTION_ALIGN: usize = 4096;

/// No reservation starts beyond this length, and no single one is longer: a
/// quarter of the address space, so that a reservation never overflows.
pub open spec fn bound() -> nat {
    (usize::MAX / 4) as nat
}

/// The bound on a reservation.
pub fn limit() -> (b: usize)
    ensures
        b == bound(),
        b >= 0x3fff_ffff,
{
    usize::MAX / 4
}

/// The length reserved after the first `i` of the regions of lengths `lens`
/// are placed behind `start`, each aligned to `align`.
#[verifier::opaque]
pub open spec fn placed_end(start: nat, lens: Seq<nat>, align: nat, i: int) -> nat
    decreases i,
{
    if i <= 0 {
        start
    } else {
        align_up(placed_end(start, lens, align, i - 1), align) + lens[i - 1]
    }
}

/// The place of the region of index `i`.
pub open spec fn placed_at(start: nat, lens: Seq<nat>, align: nat, i: int) -> nat {
    align_up(placed_end(start, lens, align, i), align)
}

/// Whether the regions can be placed: each starts within the bound and is
/// no longer than the bound.
pub open spec fn regions_fit(start: nat, lens: Seq<nat>, align: nat) -> bool {
    forall|i: int|
        0 <= i < lens.len() ==> #[trigger] placed_end(start, lens, align, i) <= bound() && lens[i]
            <= bound()
}

/// Aligning up moves a length forward by less than the alignment, onto a
/// multiple of it.
pub proof fn lemma_align_up(x: nat, align: nat)
    requires
        align >= 1,
    ensures
        x <= align_up(x, align) < x + align,
        align_up(x, align) % align == 0,
        x % align == 0 ==> align_up(x, align) == x,
{
    if align > 1 && x % align != 0 {
        let r = x % align;
        let q = x / align;
        assert(x == q * align + r) by (nonlinear_arith)
            requires
                r == x % align,
                q == x / align,
                align > 0,
        ;
        assert((q * align + align) % align == 0) by (nonlinear_arith)
            requires
                align > 0,
        ;
    } else if align == 1 {
        assert(x % 1 == 0);
    }
}

/// The lengths of the contents of the sections.
pub open spec fn content_lens(sections: Seq<OutputSection>) -> Seq<nat> {
    Seq::new(sections.len(), |i: int| sections[i].content@.len())
}

/// The lengths of the sections of dynamic relocations: 24 bytes a record.
pub open spec fn rela_lens(relas: Seq<OutputRelocationSection>) -> Seq<nat> {
    Seq::new(relas.len(), |i: int| relas[i].relocations@.len() * 24)
}

/// Two lists of sections that differ in nothing but the file offsets.
pub open spec fn same_but_offsets(a: Seq<OutputSection>, b: Seq<OutputSection>) -> bool {
    &&& a.len() == b.len()
    &&& forall|i: int|
        0 <= i < a.len() ==> {
            &&& (#[trigger] a[i]).name == b[i].name
            &&& a[i].content == b[i].content
            &&& a[i].relocations == b[i].relocations
            &&& a[i].is_executable == b[i].is_executable
            &&& a[i].is_writable == b[i].is_writable
            &&& a[i].is_bss == b[i].is_bss
            &&& a[i].section_index == b[i].section_index
            &&& a[i].name_string_id == b[i].name_string_id
        }
}

/// Reserves the file range of each output section, aligned to a page, and
/// records where it starts.
#[verifier::rlimit(50)]
pub(crate) fn reserve_sections(w: &mut Writer<'_>, sections: &mut Vec<OutputSection>) -> (res:
    Result<(), LinkError>)
    ensures
        res is Ok <==> regions_fit(
            writer_model(*old(w)).reserved,
            content_lens(old(sections)@),
            4096,
        ),
        res is Err ==> res->Err_0@ == LinkErrorView::Bug,
        res is Ok ==> {
            &&& writer_model(*final(w)) == (WriterModel {
                reserved: placed_end(
                    writer_model(*old(w)).reserved,
                    content_lens(old(sections)@),
                    4096,
                    old(sections)@.len() as int,
                ),
                ..writer_model(*old(w))
            })
            &&& same_but_offsets(old(sections)@, final(sections)@)
            &&& forall|i: int|
                0 <= i < final(sections)@.len() ==> (#[trigger] final(sections)@[i]).offset
                    == placed_at(
                    writer_model(*old(w)).reserved,
                    content_lens(old(sections)@),
                    4096,
                    i,
                )
        },
{
    reveal(placed_end);
    let ghost start = writer_model(*w).reserved;
    let ghost lens = content_lens(sections@);
    let ghost before = writer_model(*w);
    let n = sections.len();
    let mut i: usize = 0;
    while i < n
        invariant
            i <= n,
            n == sections@.len(),
            start == before.reserved,
            before == writer_model(*old(w)),
            lens == content_lens(old(sections)@),
            same_but_offsets(old(sections)@, sections@),
            writer_model(*w) == (WriterModel {
                reserved: placed_end(start, lens, 4096, i as int),
                ..before
            }),
            forall|k: int|
                0 <= k < i ==> #[trigger] placed_end(start, lens, 4096, k) <= bound() && lens[k]
                    <= bound(),
            forall|k: int|
                0 <= k < i ==> (#[trigger] sections@[k]).offset == placed_at(start, lens, 4096, k),
        decreases n - i,
    {
        reveal(placed_end);
        let len = sections[i].content.len();
        let so_far = reserved_len(w);
        assert(sections@[i as int].content == old(sections)@[i as int].content);
        assert(lens[i as int] == len);
        if so_far > limit() || len > limit() {
            assert(placed_end(start, lens, 4096, i as int) == so_far);
            assert(!regions_fit(start, lens, 4096));
            return Err(LinkError::Bug);
        }
        proof {
            lemma_align_up(so_far as nat, 4096);
        }
        let offset = reserve(w, len, SECTION_ALIGN);
        sections[i].offset = offset as u64;
        i += 1;
    }
    Ok(())
}

/// Reserves the file range of each section of dynamic relocations, aligned
/// to 8, and records where it starts.
#[verifier::rlimit(50)]
pub(crate) fn reserve_relas(w: &mut Writer<'_>, relas: &mut Vec<OutputRelocationSection>) -> (res:
    Result<(), LinkError>)
    ensures
        res is Ok <==> regions_fit(writer_model(*old(w)).reserved, rela_lens(old(relas)@), 8),
        res is Err ==> res->Err_0@ == LinkErrorView::Bug,
        res is Ok ==> {
            &&& writer_model(*final(w)) == (WriterModel {
                reserved: placed_end(
                    writer_model(*old(w)).reserved,
                    rela_lens(old(relas)@),
                    8,
                    old(relas)@.len() as int,
                ),
                ..writer_model(*old(w))
            })
            &&& final(relas)@.len() == old(relas)@.len()
            &&& forall|i: int|
                0 <= i < final(relas)@.len() ==> {
                    &&& (#[trigger] final(relas)@[i]).offset == placed_at(
                        writer_model(*old(w)).reserved,
                        rela_lens(old(relas)@),
                        8,
                        i,
                    )
                    &&& final(relas)@[i].name == old(relas)@[i].name
                    &&& final(relas)@[i].relocations == old(relas)@[i].relocations
                    &&& final(relas)@[i].name_string_id == old(relas)@[i].name_string_id
                }
        },
{
    reveal(placed_end);
    let ghost before = writer_model(*w);
    let ghost start = before.reserved;
    let ghost lens = rela_lens(relas@);
    let n = relas.len();
    let mut i: usize = 0;
    while i < n
        invariant
            i <= n,
            n == relas@.len(),
            n == old(relas)@.len(),
            start == before.reserved,
            before == writer_model(*old(w)),
            lens == rela_lens(old(relas)@),
            writer_model(*w) == (WriterModel {
                reserved: placed_end(start, lens, 8, i as int),
                ..before
            }),
            forall|k: int|
                0 <= k < i ==> #[trigger] placed_end(start, lens, 8, k) <= bound() && lens[k]
                    <= bound(),
            forall|k: int|
                0 <= k < n ==> {
                    &&& (#[trigger] relas@[k]).name == old(relas)@[k].name
                    &&& relas@[k].relocations == old(relas)@[k].relocations
                    &&& relas@[k].name_string_id == old(relas)@[k].name_string_id
                },
            forall|k: int| 0 <= k < i ==> (#[trigger] relas@[k]).offset == placed_at(start, lens, 8, k),
        decreases n - i,
    {
        reveal(placed_end);
        let count = relas[i].relocations.len();
        let so_far = reserved_len(w);
        assert(relas@[i as int].relocations == old(relas)@[i as int].relocations);
        assert(lens[i as int] == count * 24);
        let len = match count.checked_mul(24) {
            Some(len) => len,
            None => {
                assert(placed_end(start, lens, 8, i as int) == so_far);
                assert(!regions_fit(start, lens, 8));
                return Err(LinkError::Bug);
            },
        };
        if so_far > limit() || len > limit() {
            assert(placed_end(start, lens, 8, i as int) == so_far);
            assert(!regions_fit(start, lens, 8));
            return Err(LinkError::Bug);
        }
        proof {
            lemma_align_up(so_far as nat, 8);
        }
        let offset = reserve(w, len, 8);
        relas[i].offset = offset as u64;
        i += 1;
    }
    Ok(())
}

/// Tells whether a zero byte is among `bytes`.
pub fn has_zero(bytes: &[u8]) -> (r: bool)
    ensures
        r == bytes@.contains(0u8),
{
    let n = bytes.len();
    let mut i: usize = 0;
    while i < n
        invariant
            i <= n,
            n == bytes@.len(),
            forall|k: int| 0 <= k < i ==> bytes@[k] != 0u8,
        decreases n - i,
    {
        if bytes[i] == 0 {
            return true;
        }
        i += 1;
    }
    false
}

/// The table with the first `n` of `names` added, in order.
pub open spec fn with_strings(t: StringTable, names: Seq<Seq<u8>>, n: int) -> StringTable
    decreases n,
{
    if n <= 0 {
        t
    } else {
        with_string(with_strings(t, names, n - 1), names[n - 1])
    }
}

/// No name holds a zero byte.
pub open spec fn clean(names: Seq<Seq<u8>>) -> bool {
    forall|i: int| 0 <= i < names.len() ==> !(#[trigger] names[i]).contains(0u8)
}

/// Adding strings to a table loses none and leaves its layout alone.
pub proof fn lemma_with_strings(t: StringTable, names: Seq<Seq<u8>>, n: int)
    ensures
        with_strings(t, names, n).strings.len() >= t.strings.len(),
        with_strings(t, names, n).offsets == t.offsets,
        with_strings(t, names, n).data == t.data,
    decreases n,
{
    if n > 0 {
        lemma_with_strings(t, names, n - 1);
    }
}

/// The names of the output sections, as bytes.
pub open spec fn section_name_bytes(sections: Seq<OutputSection>) -> Seq<Seq<u8>> {
    Seq::new(sections.len(), |i: int| name_bytes(sections[i].name@))
}

/// The names of the sections of dynamic relocations, as bytes.
pub open spec fn rela_name_bytes(relas: Seq<OutputRelocationSection>) -> Seq<Seq<u8>> {
    Seq::new(relas.len(), |i: int| name_bytes(relas[i].name@))
}

/// The names of the symbols, as bytes.
pub open spec fn symbol_name_bytes(symbols: Seq<Symbol>) -> Seq<Seq<u8>> {
    Seq::new(symbols.len(), |i: int| name_bytes(symbols[i].name@))
}

/// An identifier that stands for a string of the table.
pub open spec fn within(id: Option<StringId>, t: StringTable) -> bool {
    match id {
        Some(i) => string_id_index(i) < t.strings.len(),
        None => true,
    }
}

/// An identifier that stands for the string of the table that spells `name`.
pub open spec fn spells(id: Option<StringId>, t: StringTable, name: Seq<char>) -> bool {
    match id {
        Some(i) => string_id_index(i) < t.strings.len() && t.strings[string_id_index(i) as int]
            == name_bytes(name),
        None => true,
    }
}

/// The table `b` holds the strings of the table `a` at their indices, and
/// maybe more behind them.
pub open spec fn extends(a: StringTable, b: StringTable) -> bool {
    &&& a.strings.len() <= b.strings.len()
    &&& forall|j: int| 0 <= j < a.strings.len() ==> b.strings[j] == a.strings[j]
}

/// A table with strings added holds the strings that it held, where it held
/// them.
pub proof fn lemma_with_strings_extends(t: StringTable, names: Seq<Seq<u8>>, n: int)
    ensures
        extends(t, with_strings(t, names, n)),
    decreases n,
{
    if n > 0 {
        lemma_with_strings_extends(t, names, n - 1);
    }
}

/// The sections `b` are the sections `a` with names and indices given: the
/// section of index `i` has the section index `first + i`, and its name is a
/// string of the table.
pub open spec fn sections_named(
    a: Seq<OutputSection>,
    b: Seq<OutputSection>,
    first: nat,
    t: StringTable,
) -> bool {
    &&& a.len() == b.len()
    &&& forall|i: int|
        0 <= i < a.len() ==> {
            &&& (#[trigger] b[i]).name == a[i].name
            &&& b[i].content == a[i].content
            &&& b[i].offset == a[i].offset
            &&& b[i].relocations == a[i].relocations
            &&& b[i].is_executable == a[i].is_executable
            &&& b[i].is_writable == a[i].is_writable
            &&& b[i].is_bss == a[i].is_bss
            &&& b[i].section_index == Some((first + i) as u32)
            &&& b[i].name_string_id is Some
            &&& spells(b[i].name_string_id, t, b[i].name@)
        }
}

/// Gives each output section its name in `.shstrtab` and its section index.
pub(crate) fn name_sections<'a>(
    w: &mut Writer<'a>,
    arena: &'a Arena<u8>,
    sections: &mut Vec<OutputSection>,
) -> (res: Result<(), LinkError>)
    requires
        writer_model(*old(w)).section_offset == 0,
        writer_model(*old(w)).shstrtab_offset == 0,
        writer_model(*old(w)).shstrtab.offsets.len() == 0,
        writer_model(*old(w)).section_num >= 1,
        writer_model(*old(w)).section_num + old(sections)@.len() < u32::MAX,
    ensures
        res is Ok <==> clean(section_name_bytes(old(sections)@)),
        res is Err ==> res->Err_0@ == LinkErrorView::Bug,
        res is Ok ==> {
            &&& writer_model(*final(w)) == (WriterModel {
                shstrtab: with_strings(
                    writer_model(*old(w)).shstrtab,
                    section_name_bytes(old(sections)@),
                    old(sections)@.len() as int,
                ),
                section_num: writer_model(*old(w)).section_num + old(sections)@.len(),
                ..writer_model(*old(w))
            })
            &&& sections_named(
                old(sections)@,
                final(sections)@,
                writer_model(*old(w)).section_num,
                writer_model(*final(w)).shstrtab,
            )
        },
{
    let ghost before = writer_model(*w);
    let ghost names = section_name_bytes(sections@);
    let n = sections.len();
    let mut i: usize = 0;
    while i < n
        invariant
            i <= n,
            n == sections@.len(),
            n == old(sections)@.len(),
            before == writer_model(*old(w)),
            before.section_offset == 0,
            before.shstrtab_offset == 0,
            before.shstrtab.offsets.len() == 0,
            before.section_num >= 1,
            before.section_num + n < u32::MAX,
            names == section_name_bytes(old(sections)@),
            writer_model(*w) == (WriterModel {
                shstrtab: with_strings(before.shstrtab, names, i as int),
                section_num: before.section_num + i as nat,
                ..before
            }),
            forall|k: int| 0 <= k < i ==> !(#[trigger] names[k]).contains(0u8),
            forall|k: int|
                0 <= k < n ==> {
                    &&& (#[trigger] sections@[k]).name == old(sections)@[k].name
                    &&& sections@[k].content == old(sections)@[k].content
                    &&& sections@[k].offset == old(sections)@[k].offset
                    &&& sections@[k].relocations == old(sections)@[k].relocations
                    &&& sections@[k].is_executable == old(sections)@[k].is_executable
                    &&& sections@[k].is_writable == old(sections)@[k].is_writable
                    &&& sections@[k].is_bss == old(sections)@[k].is_bss
                },
            forall|k: int|
                0 <= k < i ==> {
                    &&& (#[trigger] sections@[k]).section_index == Some(
                        (before.section_num + k) as u32,
                    )
                    &&& sections@[k].name_string_id is Some
                    &&& spells(
                        sections@[k].name_string_id,
                        writer_model(*w).shstrtab,
                        sections@[k].name@,
                    )
                },
        decreases n - i,
    {
        proof {
            lemma_with_strings(before.shstrtab, names, i as int);
        }
        let bytes = arena_alloc(arena, sections[i].name.as_str());
        assert(bytes@ == names[i as int]);
        if has_zero(bytes) {
            return Err(LinkError::Bug);
        }
        let id = add_section_name(w, bytes);
        let index = reserve_section_index(w);
        sections[i].name_string_id = Some(id);
        sections[i].section_index = Some(index);
        i += 1;
    }
    Ok(())
}

/// Gives each section of dynamic relocations its name in `.shstrtab` and a
/// section index.
pub(crate) fn name_relas<'a>(
    w: &mut Writer<'a>,
    arena: &'a Arena<u8>,
    relas: &mut Vec<OutputRelocationSection>,
) -> (res: Result<(), LinkError>)
    requires
        writer_model(*old(w)).section_offset == 0,
        writer_model(*old(w)).shstrtab_offset == 0,
        writer_model(*old(w)).shstrtab.offsets.len() == 0,
        writer_model(*old(w)).section_num >= 1,
        writer_model(*old(w)).section_num + old(relas)@.len() < u32::MAX,
    ensures
        res is Ok <==> clean(rela_name_bytes(old(relas)@)),
        res is Err ==> res->Err_0@ == LinkErrorView::Bug,
        res is Ok ==> {
            &&& writer_model(*final(w)) == (WriterModel {
                shstrtab: with_strings(
                    writer_model(*old(w)).shstrtab,
                    rela_name_bytes(old(relas)@),
                    old(relas)@.len() as int,
                ),
                section_num: writer_model(*old(w)).section_num + old(relas)@.len(),
                ..writer_model(*old(w))
            })
            &&& final(relas)@.len() == old(relas)@.len()
            &&& forall|k: int|
                0 <= k < final(relas)@.len() ==> {
                    &&& (#[trigger] final(relas)@[k]).name == old(relas)@[k].name
                    &&& final(relas)@[k].relocations == old(relas)@[k].relocations
                    &&& final(relas)@[k].offset == old(relas)@[k].offset
                    &&& final(relas)@[k].name_string_id is Some
                    &&& spells(
                        final(relas)@[k].name_string_id,
                        writer_model(*final(w)).shstrtab,
                        final(relas)@[k].name@,
                    )
                }
        },
{
    let ghost before = writer_model(*w);
    let ghost names = rela_name_bytes(relas@);
    let n = relas.len();
    let mut i: usize = 0;
    while i < n
        invariant
            i <= n,
            n == relas@.len(),
            n == old(relas)@.len(),
            before == writer_model(*old(w)),
            before.section_offset == 0,
            before.shstrtab_offset == 0,
            before.shstrtab.offsets.len() == 0,
            before.section_num >= 1,
            before.section_num + n < u32::MAX,
            names == rela_name_bytes(old(relas)@),
            writer_model(*w) == (WriterModel {
                shstrtab: with_strings(before.shstrtab, names, i as int),
                section_num: before.section_num + i as nat,
                ..before
            }),
            forall|k: int| 0 <= k < i ==> !(#[trigger] names[k]).contains(0u8),
            forall|k: int|
                0 <= k < n ==> {
                    &&& (#[trigger] relas@[k]).name == old(relas)@[k].name
                    &&& relas@[k].relocations == old(relas)@[k].relocations
                    &&& relas@[k].offset == old(relas)@[k].offset
                },
            forall|k: int|
                0 <= k < i ==> {
                    &&& (#[trigger] relas@[k]).name_string_id is Some
                    &&& spells(relas@[k].name_string_id, writer_model(*w).shstrtab, relas@[k].name@)
                },
        decreases n - i,
    {
        proof {
            lemma_with_strings(before.shstrtab, names, i as int);
        }
        let bytes = arena_alloc(arena, relas[i].name.as_str());
        assert(bytes@ == names[i as int]);
        if has_zero(bytes) {
            return Err(LinkError::Bug);
        }
        let id = add_section_name(w, bytes);
        reserve_section_index(w);
        relas[i].name_string_id = Some(id);
        i += 1;
    }
    Ok(())
}

/// `.symtab`
pub open spec fn dot_symtab() -> Seq<u8> {
    seq![0x2eu8, 0x73, 0x79, 0x6d, 0x74, 0x61, 0x62]
}

/// `.strtab`
pub open spec fn dot_strtab() -> Seq<u8> {
    seq![0x2eu8, 0x73, 0x74, 0x72, 0x74, 0x61, 0x62]
}

/// `.shstrtab`
pub open spec fn dot_shstrtab() -> Seq<u8> {
    seq![0x2eu8, 0x73, 0x68, 0x73, 0x74, 0x72, 0x74, 0x61, 0x62]
}

/// `.dynamic`
pub open spec fn dot_dynamic() -> Seq<u8> {
    seq![0x2eu8, 0x64, 0x79, 0x6e, 0x61, 0x6d, 0x69, 0x63]
}

/// `.dynsym`
pub open spec fn dot_dynsym() -> Seq<u8> {
    seq![0x2eu8, 0x64, 0x79, 0x6e, 0x73, 0x79, 0x6d]
}

/// `.dynstr`
pub open spec fn dot_dynstr() -> Seq<u8> {
    seq![0x2eu8, 0x64, 0x79, 0x6e, 0x73, 0x74, 0x72]
}

/// `.hash`
pub open spec fn dot_hash() -> Seq<u8> {
    seq![0x2eu8, 0x68, 0x61, 0x73, 0x68]
}

/// `.gnu.hash`
pub open spec fn dot_gnu_hash() -> Seq<u8> {
    seq![0x2eu8, 0x67, 0x6e, 0x75, 0x2e, 0x68, 0x61, 0x73, 0x68]
}

proof fn lemma_dot_names()
    ensures
        !dot_symtab().contains(0u8),
        !dot_strtab().contains(0u8),
        !dot_shstrtab().contains(0u8),
        !dot_dynamic().contains(0u8),
        !dot_dynsym().contains(0u8),
        !dot_dynstr().contains(0u8),
        !dot_hash().contains(0u8),
        !dot_gnu_hash().contains(0u8),
{
}

/// The state after the indices of `.symtab`, `.strtab` and `.shstrtab` are
/// reserved, in this order.
pub open spec fn static_indices(m: WriterModel) -> WriterModel {
    let a = WriterModel {
        symtab_index: next_section_index(m),
        ..with_named_section(m, dot_symtab())
    };
    let b = WriterModel {
        strtab_index: next_section_index(a),
        ..with_named_section(a, dot_strtab())
    };
    WriterModel { shstrtab_index: next_section_index(b), ..with_named_section(b, dot_shstrtab()) }
}

/// Reserves the section indices of `.symtab`, `.strtab` and `.shstrtab`.
pub(crate) fn reserve_static_indices(w: &mut Writer<'_>)
    requires
        writer_model(*old(w)).section_offset == 0,
        writer_model(*old(w)).shstrtab_offset == 0,
        writer_model(*old(w)).shstrtab.offsets.len() == 0,
        writer_model(*old(w)).section_num + 3 < u32::MAX,
        writer_model(*old(w)).symtab_index == 0,
        writer_model(*old(w)).strtab_index == 0,
        writer_model(*old(w)).shstrtab_index == 0,
    ensures
        writer_model(*final(w)) == static_indices(writer_model(*old(w))),
{
    proof {
        lemma_dot_names();
    }
    reserve_symtab_section_index(w);
    reserve_strtab_section_index(w);
    reserve_shstrtab_section_index(w);
}

/// The state after the indices of `.dynamic`, `.dynsym`, `.dynstr` and of
/// the hash tables that are asked for are reserved, in this order.
pub open spec fn dynamic_indices(m: WriterModel, sysv: bool, gnu: bool) -> WriterModel {
    let a = WriterModel { dynamic_named: true, ..with_named_section(m, dot_dynamic()) };
    let b = WriterModel {
        dynsym_index: next_section_index(a),
        ..with_named_section(a, dot_dynsym())
    };
    let c = WriterModel {
        dynstr_index: next_section_index(b),
        ..with_named_section(b, dot_dynstr())
    };
    let d = if sysv {
        WriterModel { hash_named: true, ..with_named_section(c, dot_hash()) }
    } else {
        c
    };
    if gnu {
        WriterModel { gnu_hash_named: true, ..with_named_section(d, dot_gnu_hash()) }
    } else {
        d
    }
}

/// Reserves the section indices of the dynamic tables, and returns those of
/// `.dynamic` and `.dynsym`.
pub(crate) fn reserve_dynamic_indices(w: &mut Writer<'_>, sysv: bool, gnu: bool) -> (indices: (
    u32,
    u32,
))
    requires
        writer_model(*old(w)).section_offset == 0,
        writer_model(*old(w)).shstrtab_offset == 0,
        writer_model(*old(w)).shstrtab.offsets.len() == 0,
        writer_model(*old(w)).section_num >= 1,
        writer_model(*old(w)).section_num + 5 < u32::MAX,
        !writer_model(*old(w)).dynamic_named,
        writer_model(*old(w)).dynsym_index == 0,
        writer_model(*old(w)).dynstr_index == 0,
        !writer_model(*old(w)).hash_named,
        !writer_model(*old(w)).gnu_hash_named,
    ensures
        writer_model(*final(w)) == dynamic_indices(writer_model(*old(w)), sysv, gnu),
        indices.0 == writer_model(*old(w)).section_num,
        indices.1 == writer_model(*old(w)).section_num + 1,
{
    proof {
        lemma_dot_names();
    }
    let dynamic = reserve_dynamic_section_index(w);
    let dynsym = reserve_dynsym_section_index(w);
    reserve_dynstr_section_index(w);
    if sysv {
        reserve_hash_section_index(w);
    }
    if gnu {
        reserve_gnu_hash_section_index(w);
    }
    (dynamic, dynsym)
}

/// The state with `count` records of `size` bytes reserved, aligned to 8.
pub open spec fn after_records(m: WriterModel, count: nat, size: nat) -> nat {
    align_up(m.reserved, 8) + count * size
}

/// Reserves the section headers.
pub(crate) fn reserve_header_table(w: &mut Writer<'_>) -> (res: Result<(), LinkError>)
    requires
        writer_model(*old(w)).section_offset == 0,
        0 < writer_model(*old(w)).section_num < SHN_LORESERVE,
    ensures
        res is Ok <==> writer_model(*old(w)).reserved <= bound(),
        res is Err ==> res->Err_0@ == LinkErrorView::Bug,
        res is Ok ==> writer_model(*final(w)) == (WriterModel {
            section_offset: align_up(writer_model(*old(w)).reserved, 8),
            reserved: after_records(writer_model(*old(w)), writer_model(*old(w)).section_num, 64),
            ..writer_model(*old(w))
        }),
{
    if reserved_len(w) > limit() {
        return Err(LinkError::Bug);
    }
    proof {
        lemma_align_up(writer_model(*w).reserved, 8);
    }
    reserve_section_headers(w);
    Ok(())
}

/// The symbols `b` are the symbols `a` with their names in `.strtab` given
/// and no name in `.dynstr`.
pub open spec fn symbols_named(a: Seq<Symbol>, b: Seq<Symbol>, t: StringTable) -> bool {
    &&& a.len() == b.len()
    &&& forall|i: int|
        0 <= i < a.len() ==> {
            &&& (#[trigger] b[i]).name == a[i].name
            &&& b[i].section_name == a[i].section_name
            &&& b[i].offset == a[i].offset
            &&& b[i].is_global == a[i].is_global
            &&& b[i].is_plt == a[i].is_plt
            &&& b[i].symbol_name_string_id is Some
            &&& spells(b[i].symbol_name_string_id, t, b[i].name@)
            &&& b[i].symbol_name_dynamic_string_id is None
        }
}

/// Whether the symbols can get their names in `.strtab`: no name holds a
/// zero byte, and the symbols are few enough for 32-bit indices and for
/// records of 24 bytes within the bound.
pub open spec fn symbols_fit(symbols: Seq<Symbol>) -> bool {
    &&& clean(symbol_name_bytes(symbols))
    &&& symbols.len() + 2 < u32::MAX
    &&& (symbols.len() + 1) * 24 <= bound()
}

/// Gives each symbol its name in `.strtab` and reserves its place in
/// `.symtab`, behind the null symbol.
pub(crate) fn name_symbols<'a>(
    w: &mut Writer<'a>,
    arena: &'a Arena<u8>,
    symbols: &mut Vec<Symbol>,
) -> (res: Result<(), LinkError>)
    requires
        writer_model(*old(w)).symtab_offset == 0,
        writer_model(*old(w)).symtab_num == 0,
        writer_model(*old(w)).strtab_offset == 0,
        writer_model(*old(w)).strtab.offsets.len() == 0,
    ensures
        res is Ok <==> symbols_fit(old(symbols)@),
        res is Err ==> res->Err_0@ == LinkErrorView::Bug,
        res is Ok ==> {
            &&& writer_model(*final(w)) == (WriterModel {
                symtab_num: 1 + old(symbols)@.len(),
                need_strtab: true,
                strtab: with_strings(
                    writer_model(*old(w)).strtab,
                    symbol_name_bytes(old(symbols)@),
                    old(symbols)@.len() as int,
                ),
                ..writer_model(*old(w))
            })
            &&& symbols_named(old(symbols)@, final(symbols)@, writer_model(*final(w)).strtab)
        },
{
    let ghost before = writer_model(*w);
    let ghost names = symbol_name_bytes(symbols@);
    let n = symbols.len();
    if n >= (u32::MAX - 2) as usize || n >= limit() / 24 {
        return Err(LinkError::Bug);
    }
    reserve_null_symbol_index(w);
    let mut i: usize = 0;
    while i < n
        invariant
            i <= n,
            n == symbols@.len(),
            n == old(symbols)@.len(),
            n + 2 < u32::MAX,
            (n + 1) * 24 <= bound(),
            before == writer_model(*old(w)),
            before.symtab_offset == 0,
            before.strtab_offset == 0,
            before.strtab.offsets.len() == 0,
            names == symbol_name_bytes(old(symbols)@),
            writer_model(*w) == (WriterModel {
                symtab_num: 1 + i as nat,
                need_strtab: true,
                strtab: with_strings(before.strtab, names, i as int),
                ..before
            }),
            forall|k: int| 0 <= k < i ==> !(#[trigger] names[k]).contains(0u8),
            forall|k: int|
                0 <= k < n ==> {
                    &&& (#[trigger] symbols@[k]).name == old(symbols)@[k].name
                    &&& symbols@[k].section_name == old(symbols)@[k].section_name
                    &&& symbols@[k].offset == old(symbols)@[k].offset
                    &&& symbols@[k].is_global == old(symbols)@[k].is_global
                    &&& symbols@[k].is_plt == old(symbols)@[k].is_plt
                },
            forall|k: int|
                0 <= k < i ==> {
                    &&& (#[trigger] symbols@[k]).symbol_name_string_id is Some
                    &&& spells(
                        symbols@[k].symbol_name_string_id,
                        writer_model(*w).strtab,
                        symbols@[k].name@,
                    )
                    &&& symbols@[k].symbol_name_dynamic_string_id is None
                },
        decreases n - i,
    {
        proof {
            lemma_with_strings(before.strtab, names, i as int);
        }
        let bytes = arena_alloc(arena, symbols[i].name.as_str());
        assert(bytes@ == names[i as int]);
        if has_zero(bytes) {
            return Err(LinkError::Bug);
        }
        let id = add_string(w, bytes);
        reserve_symbol_index(w, None);
        symbols[i].symbol_name_string_id = Some(id);
        symbols[i].symbol_name_dynamic_string_id = None;
        i += 1;
    }
    Ok(())
}

/// The table, laid out.
pub open spec fn laid(t: StringTable) -> StringTable {
    crate::writer::laid_out(t)
}

/// The state after `.symtab` is reserved.
pub open spec fn after_symtab(m: WriterModel) -> WriterModel {
    WriterModel {
        symtab_offset: align_up(m.reserved, 8),
        reserved: after_records(m, m.symtab_num, 24),
        ..m
    }
}

/// The state after `.strtab` is laid out and reserved.
pub open spec fn after_strtab(m: WriterModel) -> WriterModel {
    WriterModel {
        strtab: laid(m.strtab),
        strtab_offset: m.reserved,
        reserved: m.reserved + laid(m.strtab).data.len(),
        ..m
    }
}

/// The state after `.shstrtab` is laid out and reserved.
pub open spec fn after_shstrtab(m: WriterModel) -> WriterModel {
    WriterModel {
        shstrtab: laid(m.shstrtab),
        shstrtab_offset: m.reserved,
        reserved: m.reserved + laid(m.shstrtab).data.len(),
        ..m
    }
}

/// The state after the three static tables are reserved.
pub open spec fn after_tables(m: WriterModel) -> WriterModel {
    after_shstrtab(after_strtab(after_symtab(m)))
}

/// Whether the three static tables can be reserved: each starts within the
/// bound.
pub open spec fn tables_fit(m: WriterModel) -> bool {
    &&& m.reserved <= bound()
    &&& after_symtab(m).reserved <= bound()
    &&& after_strtab(after_symtab(m)).reserved <= bound()
}

/// Reserves `.symtab`, `.strtab` and `.shstrtab`.
pub(crate) fn reserve_tables(w: &mut Writer<'_>) -> (res: Result<(), LinkError>)
    requires
        writer_model(*old(w)).symtab_offset == 0,
        writer_model(*old(w)).strtab_offset == 0,
        writer_model(*old(w)).shstrtab_offset == 0,
        writer_model(*old(w)).strtab.offsets.len() == 0,
        writer_model(*old(w)).shstrtab.offsets.len() == 0,
        writer_model(*old(w)).symtab_num != 0,
        writer_model(*old(w)).symtab_num * 24 <= bound(),
        writer_model(*old(w)).need_strtab,
        writer_model(*old(w)).section_num != 0,
    ensures
        res is Ok <==> tables_fit(writer_model(*old(w))),
        res is Err ==> res->Err_0@ == LinkErrorView::Bug,
        res is Ok ==> writer_model(*final(w)) == after_tables(writer_model(*old(w))),
        res is Ok ==> is_laid_out(writer_model(*final(w)).strtab) && is_laid_out(
            writer_model(*final(w)).shstrtab,
        ),
{
    if reserved_len(w) > limit() {
        return Err(LinkError::Bug);
    }
    proof {
        lemma_align_up(writer_model(*w).reserved, 8);
    }
    reserve_symtab(w);
    if reserved_len(w) > limit() {
        return Err(LinkError::Bug);
    }
    reserve_strtab(w);
    if reserved_len(w) > limit() {
        return Err(LinkError::Bug);
    }
    reserve_shstrtab(w);
    Ok(())
}

/// The names of dynamic symbols, as bytes.
pub open spec fn dynamic_name_bytes(list: Seq<DynamicSymbol>) -> Seq<Seq<u8>> {
    Seq::new(list.len(), |i: int| name_bytes(list[i].name@))
}

/// The names of the needed shared objects, as bytes.
pub open spec fn needed_name_bytes(needed: Seq<Needed>) -> Seq<Seq<u8>> {
    Seq::new(needed.len(), |i: int| name_bytes(needed[i].name@))
}

/// Every dynamic symbol of the list is in the symbol table.
pub open spec fn all_defined(list: Seq<DynamicSymbol>, symbols: Seq<Symbol>) -> bool {
    forall|i: int|
        0 <= i < list.len() ==> position(symbol_names(views(symbols)), (#[trigger] list[i]).name@)
            < symbols.len()
}

/// The symbols `b` are the symbols `a` but for their names in `.dynstr`,
/// which are strings of the table.
pub open spec fn symbols_kept(a: Seq<Symbol>, b: Seq<Symbol>, t: StringTable) -> bool {
    &&& a.len() == b.len()
    &&& forall|i: int|
        0 <= i < a.len() ==> {
            &&& (#[trigger] b[i]).name == a[i].name
            &&& b[i].section_name == a[i].section_name
            &&& b[i].offset == a[i].offset
            &&& b[i].is_global == a[i].is_global
            &&& b[i].is_plt == a[i].is_plt
            &&& b[i].symbol_name_string_id == a[i].symbol_name_string_id
            &&& spells(b[i].symbol_name_dynamic_string_id, t, b[i].name@)
        }
}

/// Each of the first `n` dynamic symbols of the list has its name in
/// `.dynstr` recorded with the symbol of that name.
pub open spec fn dynamic_names_set(list: Seq<DynamicSymbol>, symbols: Seq<Symbol>, n: int) -> bool {
    forall|k: int|
        0 <= k < n ==> {
            let p = position(symbol_names(views(symbols)), (#[trigger] list[k]).name@);
            p < symbols.len() && symbols[p].symbol_name_dynamic_string_id is Some
        }
}

/// Every symbol that has its name in `.dynstr` recorded in `a` has it
/// recorded in `b`.
pub open spec fn dynamic_names_stay(a: Seq<Symbol>, b: Seq<Symbol>) -> bool {
    &&& a.len() == b.len()
    &&& forall|i: int|
        0 <= i < a.len() && a[i].symbol_name_dynamic_string_id is Some ==> (
        #[trigger] b[i]).symbol_name_dynamic_string_id is Some
}

/// Symbols that keep their names and the names recorded in `.dynstr` keep
/// the names of the dynamic symbols recorded.
pub proof fn lemma_names_set_stay(
    list: Seq<DynamicSymbol>,
    a: Seq<Symbol>,
    b: Seq<Symbol>,
    n: int,
)
    requires
        dynamic_names_set(list, a, n),
        dynamic_names_stay(a, b),
        forall|i: int| 0 <= i < a.len() ==> (#[trigger] b[i]).name == a[i].name,
    ensures
        dynamic_names_set(list, b, n),
{
    lemma_same_names(a, b);
    assert forall|k: int| 0 <= k < n implies ({
        let p = position(symbol_names(views(b)), (#[trigger] list[k]).name@);
        p < b.len() && b[p].symbol_name_dynamic_string_id is Some
    }) by {
        lemma_position(symbol_names(views(b)), list[k].name@);
    }
}

proof fn lemma_same_names(a: Seq<Symbol>, b: Seq<Symbol>)
    requires
        a.len() == b.len(),
        forall|i: int| 0 <= i < a.len() ==> (#[trigger] b[i]).name == a[i].name,
    ensures
        symbol_names(views(a)) == symbol_names(views(b)),
{
    assert(symbol_names(views(a)) =~= symbol_names(views(b)));
}

/// Gives each dynamic symbol of the list its name in `.dynstr`, recorded with
/// the symbol of that name, and reserves its place in `.dynsym`.
pub(crate) fn name_dynamic_symbols<'a>(
    w: &mut Writer<'a>,
    arena: &'a Arena<u8>,
    list: &Vec<DynamicSymbol>,
    symbols: &mut Vec<Symbol>,
) -> (res: Result<(), LinkError>)
    requires
        writer_model(*old(w)).dynstr_offset == 0,
        writer_model(*old(w)).dynstr.offsets.len() == 0,
        writer_model(*old(w)).dynsym_offset == 0,
        writer_model(*old(w)).dynsym_num >= 1,
        writer_model(*old(w)).need_dynstr,
        writer_model(*old(w)).dynsym_num + list@.len() < u32::MAX,
        symbols_kept(old(symbols)@, old(symbols)@, writer_model(*old(w)).dynstr),
    ensures
        res is Ok <==> clean(dynamic_name_bytes(list@)) && all_defined(list@, old(symbols)@),
        res is Err ==> res->Err_0@ == LinkErrorView::Bug,
        res is Ok ==> {
            &&& writer_model(*final(w)) == (WriterModel {
                dynsym_num: writer_model(*old(w)).dynsym_num + list@.len(),
                need_dynstr: true,
                dynstr: with_strings(
                    writer_model(*old(w)).dynstr,
                    dynamic_name_bytes(list@),
                    list@.len() as int,
                ),
                ..writer_model(*old(w))
            })
            &&& symbols_kept(old(symbols)@, final(symbols)@, writer_model(*final(w)).dynstr)
            &&& dynamic_names_set(list@, final(symbols)@, list@.len() as int)
            &&& dynamic_names_stay(old(symbols)@, final(symbols)@)
        },
{
    let ghost before = writer_model(*w);
    let ghost names = dynamic_name_bytes(list@);
    let n = list.len();
    let mut i: usize = 0;
    while i < n
        invariant
            i <= n,
            n == list@.len(),
            before == writer_model(*old(w)),
            before.dynstr_offset == 0,
            before.dynstr.offsets.len() == 0,
            before.dynsym_offset == 0,
            before.dynsym_num >= 1,
            before.need_dynstr,
            before.dynsym_num + n < u32::MAX,
            names == dynamic_name_bytes(list@),
            symbols@.len() == old(symbols)@.len(),
            writer_model(*w) == (WriterModel {
                dynsym_num: before.dynsym_num + i as nat,
                need_dynstr: true,
                dynstr: with_strings(before.dynstr, names, i as int),
                ..before
            }),
            forall|k: int| 0 <= k < i ==> !(#[trigger] names[k]).contains(0u8),
            forall|k: int|
                0 <= k < i ==> position(
                    symbol_names(views(old(symbols)@)),
                    (#[trigger] list@[k]).name@,
                ) < symbols@.len(),
            symbols_kept(old(symbols)@, symbols@, writer_model(*w).dynstr),
            dynamic_names_set(list@, symbols@, i as int),
            dynamic_names_stay(old(symbols)@, symbols@),
        decreases n - i,
    {
        proof {
            lemma_with_strings(before.dynstr, names, i as int);
            lemma_same_names(old(symbols)@, symbols@);
        }
        let ghost earlier = symbols@;
        assert(dynamic_names_set(list@, earlier, i as int));
        let p = find_symbol(symbols, list[i].name.as_str());
        if p >= symbols.len() {
            return Err(LinkError::Bug);
        }
        proof {
            lemma_position(symbol_names(views(symbols@)), list@[i as int].name@);
            assert(symbol_names(views(symbols@))[p as int] == symbols@[p as int].name@);
        }
        let bytes = arena_alloc(arena, list[i].name.as_str());
        assert(bytes@ == names[i as int]);
        if has_zero(bytes) {
            return Err(LinkError::Bug);
        }
        let id = add_dynamic_string(w, bytes);
        reserve_dynamic_symbol_index(w);
        symbols[p].symbol_name_dynamic_string_id = Some(id);
        proof {
            lemma_same_names(earlier, symbols@);
            let names_now = symbol_names(views(symbols@));
            assert(position(names_now, list@[i as int].name@) == p);
            assert forall|k: int| 0 <= k < i + 1 implies ({
                let q = position(names_now, (#[trigger] list@[k]).name@);
                q < symbols@.len() && symbols@[q].symbol_name_dynamic_string_id is Some
            }) by {
                let q = position(names_now, list@[k].name@);
                if k < i {
                    lemma_position(names_now, list@[k].name@);
                    assert(names_now == symbol_names(views(earlier)));
                    assert(q < earlier.len() && earlier[q].symbol_name_dynamic_string_id is Some);
                    if q != p {
                        assert(symbols@[q] == earlier[q]);
                    }
                }
            }
        }
        i += 1;
    }
    Ok(())
}

/// Gives each needed shared object its name in `.dynstr`.
pub(crate) fn name_needed<'a>(w: &mut Writer<'a>, arena: &'a Arena<u8>, needed: &mut Vec<Needed>)
    -> (res: Result<(), LinkError>)
    requires
        writer_model(*old(w)).dynstr_offset == 0,
        writer_model(*old(w)).dynstr.offsets.len() == 0,
        writer_model(*old(w)).need_dynstr,
    ensures
        res is Ok <==> clean(needed_name_bytes(old(needed)@)),
        res is Err ==> res->Err_0@ == LinkErrorView::Bug,
        res is Ok ==> {
            &&& writer_model(*final(w)) == (WriterModel {
                dynstr: with_strings(
                    writer_model(*old(w)).dynstr,
                    needed_name_bytes(old(needed)@),
                    old(needed)@.len() as int,
                ),
                ..writer_model(*old(w))
            })
            &&& final(needed)@.len() == old(needed)@.len()
            &&& forall|k: int|
                0 <= k < final(needed)@.len() ==> {
                    &&& (#[trigger] final(needed)@[k]).name == old(needed)@[k].name
                    &&& final(needed)@[k].name_string_id is Some
                    &&& spells(
                        final(needed)@[k].name_string_id,
                        writer_model(*final(w)).dynstr,
                        final(needed)@[k].name@,
                    )
                }
        },
{
    let ghost before = writer_model(*w);
    let ghost names = needed_name_bytes(needed@);
    let n = needed.len();
    let mut i: usize = 0;
    while i < n
        invariant
            i <= n,
            n == needed@.len(),
            n == old(needed)@.len(),
            before == writer_model(*old(w)),
            before.dynstr_offset == 0,
            before.dynstr.offsets.len() == 0,
            before.need_dynstr,
            names == needed_name_bytes(old(needed)@),
            writer_model(*w) == (WriterModel {
                dynstr: with_strings(before.dynstr, names, i as int),
                ..before
            }),
            forall|k: int| 0 <= k < i ==> !(#[trigger] names[k]).contains(0u8),
            forall|k: int| 0 <= k < n ==> (#[trigger] needed@[k]).name == old(needed)@[k].name,
            forall|k: int|
                0 <= k < i ==> {
                    &&& (#[trigger] needed@[k]).name_string_id is Some
                    &&& spells(needed@[k].name_string_id, writer_model(*w).dynstr, needed@[k].name@)
                },
        decreases n - i,
    {
        proof {
            lemma_with_strings(before.dynstr, names, i as int);
        }
        let bytes = arena_alloc(arena, needed[i].name.as_str());
        assert(bytes@ == names[i as int]);
        if has_zero(bytes) {
            return Err(LinkError::Bug);
        }
        let id = add_dynamic_string(w, bytes);
        needed[i].name_string_id = Some(id);
        i += 1;
    }
    Ok(())
}

/// The table with the name of a shared output added, where it has one.
pub open spec fn with_soname(t: StringTable, soname: Option<Seq<char>>) -> StringTable {
    match soname {
        Some(name) => with_string(t, name_bytes(name)),
        None => t,
    }
}

/// Gives a shared output its name in `.dynstr`, where it has one.
pub(crate) fn name_soname<'a>(w: &mut Writer<'a>, arena: &'a Arena<u8>, soname: &Option<String>)
    -> (res: Result<Option<StringId>, LinkError>)
    requires
        writer_model(*old(w)).dynstr_offset == 0,
        writer_model(*old(w)).dynstr.offsets.len() == 0,
        writer_model(*old(w)).need_dynstr,
    ensures
        res is Ok <==> (soname is Some ==> !name_bytes(soname->Some_0@).contains(0u8)),
        res is Err ==> res->Err_0@ == LinkErrorView::Bug,
        res is Ok ==> {
            &&& writer_model(*final(w)) == (WriterModel {
                dynstr: with_soname(writer_model(*old(w)).dynstr, crate::text::option_view(*soname)),
                ..writer_model(*old(w))
            })
            &&& res->Ok_0 is Some == soname is Some
            &&& soname is Some ==> spells(
                res->Ok_0,
                writer_model(*final(w)).dynstr,
                soname->Some_0@,
            )
        },
{
    match soname {
        None => Ok(None),
        Some(name) => {
            let bytes = arena_alloc(arena, name.as_str());
            if has_zero(bytes) {
                return Err(LinkError::Bug);
            }
            Ok(Some(add_dynamic_string(w, bytes)))
        },
    }
}

/// The state after `.dynamic` is reserved for `count` entries.
pub open spec fn after_dynamic(m: WriterModel, count: nat) -> WriterModel {
    WriterModel {
        dynamic_num: count,
        dynamic_offset: align_up(m.reserved, 8),
        reserved: after_records(m, count, 16),
        ..m
    }
}

/// The state after `.dynsym` is reserved.
pub open spec fn after_dynsym(m: WriterModel) -> WriterModel {
    WriterModel {
        dynsym_offset: align_up(m.reserved, 8),
        reserved: after_records(m, m.dynsym_num, 24),
        ..m
    }
}

/// The state after `.dynstr` is laid out and reserved.
pub open spec fn after_dynstr(m: WriterModel) -> WriterModel {
    WriterModel {
        dynstr: laid(m.dynstr),
        dynstr_offset: m.reserved,
        reserved: m.reserved + laid(m.dynstr).data.len(),
        ..m
    }
}

/// The state after a System V hash table for `symbols` dynamic symbols is
/// reserved: as many buckets as symbols, and one chain entry more.
pub open spec fn after_hash(m: WriterModel, symbols: nat) -> WriterModel {
    WriterModel {
        hash_size: 8 + 4 * symbols + 4 * (symbols + 1),
        hash_offset: align_up(m.reserved, 4),
        reserved: align_up(m.reserved, 4) + 8 + 4 * symbols + 4 * (symbols + 1),
        ..m
    }
}

/// The state after a GNU hash table for `exports` exported symbols is
/// reserved: one Bloom word, as many buckets as symbols.
pub open spec fn after_gnu_hash(m: WriterModel, exports: nat) -> WriterModel {
    WriterModel {
        gnu_hash_size: 16 + 8 + 4 * exports + 4 * exports,
        gnu_hash_offset: align_up(m.reserved, 8),
        reserved: align_up(m.reserved, 8) + 16 + 8 + 4 * exports + 4 * exports,
        ..m
    }
}

/// The state after the hash tables that are asked for are reserved.
pub open spec fn after_hashes(m: WriterModel, sysv: bool, gnu: bool, imports: nat, exports: nat)
    -> WriterModel {
    let a = if sysv {
        after_hash(m, imports + exports)
    } else {
        m
    };
    if gnu {
        after_gnu_hash(a, exports)
    } else {
        a
    }
}

/// Whether the hash tables can be reserved: each starts within the bound and
/// is no longer than the bound.
pub open spec fn hashes_fit(m: WriterModel, sysv: bool, gnu: bool, imports: nat, exports: nat)
    -> bool {
    &&& sysv ==> m.reserved <= bound() && 12 + 8 * (imports + exports) <= bound()
    &&& gnu ==> (if sysv {
        after_hash(m, imports + exports)
    } else {
        m
    }).reserved <= bound() && 24 + 8 * exports <= bound()
}

/// Where the hash tables start, 0 for one that is not asked for.
pub struct HashPlaces {
    pub hash: usize,
    pub gnu_hash: usize,
}

/// Reserves the hash tables that are asked for.
pub(crate) fn reserve_hashes(w: &mut Writer<'_>, sysv: bool, gnu: bool, imports: u32, exports: u32)
    -> (res: Result<HashPlaces, LinkError>)
    requires
        imports + exports + 2 < u32::MAX,
    ensures
        res is Ok <==> hashes_fit(
            writer_model(*old(w)),
            sysv,
            gnu,
            imports as nat,
            exports as nat,
        ),
        res is Err ==> res->Err_0@ == LinkErrorView::Bug,
        res is Ok ==> {
            &&& writer_model(*final(w)) == after_hashes(
                writer_model(*old(w)),
                sysv,
                gnu,
                imports as nat,
                exports as nat,
            )
            &&& sysv ==> res->Ok_0.hash == writer_model(*final(w)).hash_offset
            &&& gnu ==> res->Ok_0.gnu_hash == writer_model(*final(w)).gnu_hash_offset
        },
{
    let mut places = HashPlaces { hash: 0, gnu_hash: 0 };
    if sysv {
        if reserved_len(w) > limit() {
            return Err(LinkError::Bug);
        }
        if (imports + exports) as usize > (limit() - 12) / 8 {
            return Err(LinkError::Bug);
        }
        proof {
            lemma_align_up(writer_model(*w).reserved, 4);
        }
        places.hash = reserve_hash(w, imports + exports, imports + exports + 1);
    }
    if gnu {
        if reserved_len(w) > limit() {
            return Err(LinkError::Bug);
        }
        if exports as usize > (limit() - 24) / 8 {
            return Err(LinkError::Bug);
        }
        proof {
            lemma_align_up(writer_model(*w).reserved, 8);
        }
        places.gnu_hash = reserve_gnu_hash(w, 1, exports, exports);
    }
    Ok(places)
}

} // verus!
