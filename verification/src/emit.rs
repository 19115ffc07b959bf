//! The last stage: the output file is written, part by part, in the order in
//! which the parts were reserved.

use crate::bytes::zeros;
use crate::dynamic::{DynamicEntry, DynamicValue};
use crate::image::{
    entry_point, file_header, gnu_hashes, make_gnu_hashes, make_sysv_hashes, sysv_hashes,
};
use crate::layout::{
    after_dynamic, bound, content_lens, lemma_align_up, lemma_with_strings, placed_at, placed_end,
    rela_lens, with_strings, within,
};
use crate::link::Linker;
use crate::lookup::position;
use crate::model::{LinkError, LinkErrorView, OutputRelocationSection, OutputSection, Rel};
use crate::relocate::section_address;
use crate::reserve::{untouched, Shape};
use crate::symtab::{count_locals, local_count, symtab_order};
use crate::text::views;
use crate::writer::{
    align_up, dynamic_bytes, dynamic_header, dynstr_header, dynstr_len, dynsym_header,
    file_header_bytes, gnu_hash_header, gnu_hash_section_header, gnu_hash_table_body, has_offset,
    hash_header, hash_section_header, hash_table_body, is_laid_out, offset_of, pad_until, padded,
    program_header_bytes, rela_bytes, reserved_len, section_header_bytes, shstrtab_header,
    strtab_header, symbol_bytes, symtab_header, write_align_dynamic, write_bytes, write_dynamic,
    write_dynamic_section_header, write_dynamic_string, write_dynamic_symbol, write_dynstr,
    write_dynstr_section_header, write_dynsym_section_header, write_file_header, write_gnu_hash,
    write_gnu_hash_section_header, write_hash, write_hash_section_header, write_null_dynamic_symbol,
    write_null_section_header, write_null_symbol, write_program_header, write_relocation,
    write_section_header, write_shstrtab, write_shstrtab_section_header, write_strtab,
    write_strtab_section_header, write_symbol, write_symtab_section_header, writer_model,
    FileHeader, ProgramHeader, SectionHeader, StringTable, Sym, WriterModel,
};
use object::write::elf::Writer;
use vstd::prelude::*;
use vstd::string::*;

verus! {

/// Where the static part of the file ends: behind `.shstrtab`.
pub open spec fn static_end(p: WriterModel) -> nat {
    p.shstrtab_offset + p.shstrtab.data.len()
}

/// Where the System V hash table starts, or would start.
pub open spec fn dynstr_end(p: WriterModel) -> nat {
    p.dynstr_offset + p.dynstr.data.len()
}

/// The state `p` of the writer holds the reservation of an output of the
/// shape `shape`, and nothing is written yet: each part starts where the part
/// before it ends, aligned as it must be.
pub open spec fn laid_out_for(shape: Shape, p: WriterModel) -> bool {
    &&& p.buffer.len() == 0
    &&& 2 * p.reserved <= usize::MAX
    &&& p.segment_num == shape.program_header_count()
    &&& p.segment_offset == 64
    &&& p.section_num == shape.section_count()
    &&& p.section_num < 0xff00
    &&& p.symtab_index == 1 + shape.section_lens.len() + shape.rela_lens.len()
    &&& p.strtab_index == p.symtab_index + 1
    &&& p.shstrtab_index == p.symtab_index + 2
    &&& p.section_offset == align_up(shape.relas_end(), 8)
    &&& p.symtab_num == 1 + shape.symbol_names.len()
    &&& p.symtab_num + 1 < u32::MAX
    &&& p.symtab_offset == align_up(p.section_offset + 64 * p.section_num, 8)
    &&& p.need_strtab
    &&& p.strtab_offset == p.symtab_offset + 24 * p.symtab_num
    &&& p.shstrtab_offset == p.strtab_offset + p.strtab.data.len()
    &&& p.strtab.data.len() >= 1
    &&& p.shstrtab.data.len() >= 1
    &&& if shape.has_dynamic() {
        &&& p.dynamic_named
        &&& p.dynsym_index == p.symtab_index + 4
        &&& p.dynstr_index == p.symtab_index + 5
        &&& p.hash_named == shape.hash_style.sysv
        &&& p.gnu_hash_named == shape.hash_style.gnu
        &&& p.dynamic_num == shape.dynamic_entry_count()
        &&& p.dynamic_offset == align_up(static_end(p), 8)
        &&& p.dynsym_num == 1 + shape.import_names.len() + shape.export_names.len()
        &&& p.dynsym_num + 1 < u32::MAX
        &&& p.dynsym_num * 24 <= bound()
        &&& p.dynsym_offset == align_up(p.dynamic_offset + 16 * p.dynamic_num, 8)
        &&& p.need_dynstr
        &&& p.dynstr_offset == p.dynsym_offset + 24 * p.dynsym_num
        &&& p.dynstr.data.len() >= 1
        &&& shape.hash_style.sysv ==> {
            &&& p.hash_offset == align_up(dynstr_end(p), 4)
            &&& p.hash_size == 8 + 4 * (p.dynsym_num - 1) + 4 * p.dynsym_num
        }
        &&& shape.hash_style.gnu ==> {
            &&& p.gnu_hash_offset == align_up(
                if shape.hash_style.sysv {
                    p.hash_offset + p.hash_size
                } else {
                    dynstr_end(p)
                },
                8,
            )
            &&& p.gnu_hash_size == 16 + 8 + 8 * shape.export_names.len()
        }
        &&& p.reserved == (if shape.hash_style.gnu {
            p.gnu_hash_offset + p.gnu_hash_size
        } else if shape.hash_style.sysv {
            p.hash_offset + p.hash_size
        } else {
            dynstr_end(p)
        })
    } else {
        &&& !p.dynamic_named
        &&& p.dynsym_index == 0
        &&& p.dynstr_index == 0
        &&& !p.hash_named
        &&& !p.gnu_hash_named
        &&& p.dynamic_offset == 0
        &&& p.dynsym_num == 0
        &&& p.dynstr_offset == 0
        &&& p.reserved == static_end(p)
    }
}

/// The plan of an output that can be reserved is laid out for its shape.
pub proof fn lemma_plan_laid_out(shape: Shape, m: WriterModel)
    requires
        untouched(m),
        m.buffer.len() == 0,
        shape.reservable(m),
        shape.section_names.len() == shape.section_lens.len(),
        shape.rela_names.len() == shape.rela_lens.len(),
    ensures
        laid_out_for(shape, shape.plan(m)),
        shape.plan(m).sink == m.sink,
{
    let r = shape.ranges(m);
    lemma_with_strings(r.shstrtab, shape.section_names, shape.section_names.len() as int);
    lemma_with_strings(
        with_strings(r.shstrtab, shape.section_names, shape.section_names.len() as int),
        shape.rela_names,
        shape.rela_names.len() as int,
    );
    let n = shape.names(r);
    lemma_with_strings(n.strtab, shape.symbol_names, shape.symbol_names.len() as int);
    let s = shape.statics(m);
    if shape.has_dynamic() {
        let a = after_dynamic(s, shape.dynamic_entry_count());
        let t1 = with_strings(a.dynstr, shape.import_names, shape.import_names.len() as int);
        lemma_with_strings(a.dynstr, shape.import_names, shape.import_names.len() as int);
        let t2 = with_strings(t1, shape.export_names, shape.export_names.len() as int);
        lemma_with_strings(t1, shape.export_names, shape.export_names.len() as int);
        let t3 = crate::reserve::with_optional(t2, shape.soname);
        lemma_with_strings(t3, shape.needed_names, shape.needed_names.len() as int);
    }
}

/// The state `m` of the writer is the reservation `p` with something
/// written: it differs from it in the bytes written, and in that writing has
/// started.
pub open spec fn writing(p: WriterModel, m: WriterModel) -> bool {
    m == (WriterModel { buffer: m.buffer, capacity: p.reserved, ..p })
}

/// The bytes of the first `n` of the program headers.
pub open spec fn program_headers_image(headers: Seq<ProgramHeader>, n: int) -> Seq<u8>
    decreases n,
{
    if n <= 0 {
        Seq::empty()
    } else {
        program_headers_image(headers, n - 1) + program_header_bytes(headers[n - 1])
    }
}

/// A program header is 56 bytes long.
pub proof fn lemma_program_headers_len(headers: Seq<ProgramHeader>, n: int)
    requires
        0 <= n <= headers.len(),
    ensures
        program_headers_image(headers, n).len() == 56 * n,
    decreases n,
{
    if n > 0 {
        lemma_program_headers_len(headers, n - 1);
    }
}

/// Writes the file header and the program headers.
pub(crate) fn write_headers(
    w: &mut Writer<'_>,
    header: &FileHeader,
    headers: &Vec<ProgramHeader>,
    Ghost(p): Ghost<WriterModel>,
)
    requires
        writer_model(*old(w)) == p,
        p.buffer.len() == 0,
        p.reserved >= 64 + 56 * headers@.len(),
        2 * p.reserved <= usize::MAX,
        p.segment_num <= 0xffff,
        p.section_num < 0xff00,
        p.shstrtab_index < 0xff00,
        header.e_machine != 8,
    ensures
        writing(p, writer_model(*final(w))),
        writer_model(*final(w)).buffer == file_header_bytes(*header, p) + program_headers_image(
            headers@,
            headers@.len() as int,
        ),
        writer_model(*final(w)).buffer.len() == 64 + 56 * headers@.len(),
{
    write_file_header(w, header);
    let ghost first = file_header_bytes(*header, p);
    assert(first.len() == 64);
    let n = headers.len();
    let mut i: usize = 0;
    assert(first + program_headers_image(headers@, 0) =~= first);
    while i < n
        invariant
            i <= n,
            n == headers@.len(),
            first.len() == 64,
            p.reserved >= 64 + 56 * n,
            writing(p, writer_model(*w)),
            writer_model(*w).buffer == first + program_headers_image(headers@, i as int),
        decreases n - i,
    {
        proof {
            lemma_program_headers_len(headers@, i as int);
        }
        write_program_header(w, &headers[i]);
        proof {
            assert(first + program_headers_image(headers@, i as int) + program_header_bytes(
                headers@[i as int],
            ) =~= first + program_headers_image(headers@, i + 1));
        }
        i += 1;
    }
    proof {
        lemma_program_headers_len(headers@, n as int);
    }
}

/// `buffer`, then for each of the first `n` sections zeros up to its place
/// and its content.
pub open spec fn sections_image(buffer: Seq<u8>, sections: Seq<OutputSection>, n: int) -> Seq<u8>
    decreases n,
{
    if n <= 0 {
        buffer
    } else {
        let before = sections_image(buffer, sections, n - 1);
        before + zeros((sections[n - 1].offset - before.len()) as nat) + sections[n - 1].content@
    }
}

/// Writes the output sections, each at its place.
pub(crate) fn write_sections(
    w: &mut Writer<'_>,
    sections: &Vec<OutputSection>,
    Ghost(p): Ghost<WriterModel>,
)
    requires
        writing(p, writer_model(*old(w))),
        forall|i: int|
            0 <= i < sections@.len() ==> (#[trigger] sections@[i]).offset == placed_at(
                writer_model(*old(w)).buffer.len(),
                content_lens(sections@),
                4096,
                i,
            ),
        placed_end(
            writer_model(*old(w)).buffer.len(),
            content_lens(sections@),
            4096,
            sections@.len() as int,
        ) <= p.reserved,
        p.reserved <= usize::MAX,
    ensures
        writing(p, writer_model(*final(w))),
        writer_model(*final(w)).buffer == sections_image(
            writer_model(*old(w)).buffer,
            sections@,
            sections@.len() as int,
        ),
        writer_model(*final(w)).buffer.len() == placed_end(
            writer_model(*old(w)).buffer.len(),
            content_lens(sections@),
            4096,
            sections@.len() as int,
        ),
{
    reveal(placed_end);
    let ghost start = writer_model(*w).buffer;
    let ghost lens = content_lens(sections@);
    let n = sections.len();
    let mut i: usize = 0;
    while i < n
        invariant
            i <= n,
            n == sections@.len(),
            lens == content_lens(sections@),
            writing(p, writer_model(*w)),
            p.reserved <= usize::MAX,
            forall|k: int|
                0 <= k < n ==> (#[trigger] sections@[k]).offset == placed_at(
                    start.len(),
                    lens,
                    4096,
                    k,
                ),
            placed_end(start.len(), lens, 4096, n as int) <= p.reserved,
            writer_model(*w).buffer == sections_image(start, sections@, i as int),
            writer_model(*w).buffer.len() == placed_end(start.len(), lens, 4096, i as int),
        decreases n - i,
    {
        reveal(placed_end);
        proof {
            lemma_align_up(placed_end(start.len(), lens, 4096, i as int), 4096);
            lemma_placed_monotone(start.len(), lens, 4096, i + 1, n as int);
            assert(lens[i as int] == sections@[i as int].content@.len());
        }
        pad_until(w, sections[i].offset as usize);
        write_bytes(w, sections[i].content.as_slice());
        i += 1;
    }
}

/// Placing more regions never shortens the reserved length.
pub proof fn lemma_placed_monotone(start: nat, lens: Seq<nat>, align: nat, i: int, j: int)
    requires
        0 <= i <= j,
        align >= 1,
    ensures
        placed_end(start, lens, align, i) <= placed_end(start, lens, align, j),
    decreases j - i,
{
    reveal(placed_end);
    if i < j {
        lemma_placed_monotone(start, lens, align, i, j - 1);
        lemma_align_up(placed_end(start, lens, align, j - 1), align);
    }
}

/// The record `r` with the address `base` added to its place.
pub open spec fn rebased(r: Rel, base: u64) -> Rel {
    Rel { r_offset: r.r_offset.wrapping_add(base), ..r }
}

/// The bytes of the first `n` of the records, each with `base` added to its
/// place.
pub open spec fn records_image(records: Seq<Rel>, base: u64, n: int) -> Seq<u8>
    decreases n,
{
    if n <= 0 {
        Seq::empty()
    } else {
        records_image(records, base, n - 1) + rela_bytes(rebased(records[n - 1], base))
    }
}

/// A record is 24 bytes long.
pub proof fn lemma_records_len(records: Seq<Rel>, base: u64, n: int)
    requires
        0 <= n <= records.len(),
    ensures
        records_image(records, base, n).len() == 24 * n,
    decreases n,
{
    if n > 0 {
        lemma_records_len(records, base, n - 1);
    }
}

/// `buffer`, then for each of the first `n` sections of dynamic relocations
/// zeros up to its place and its records.
pub open spec fn relas_image(
    buffer: Seq<u8>,
    relas: Seq<OutputRelocationSection>,
    base: u64,
    n: int,
) -> Seq<u8>
    decreases n,
{
    if n <= 0 {
        buffer
    } else {
        let before = relas_image(buffer, relas, base, n - 1);
        before + zeros((relas[n - 1].offset - before.len()) as nat) + records_image(
            relas[n - 1].relocations@,
            base,
            relas[n - 1].relocations@.len() as int,
        )
    }
}

/// Writes the sections of dynamic relocations, each at its place, the
/// address `base` of `.got.plt` added to the place of each record.
pub(crate) fn write_relas(
    w: &mut Writer<'_>,
    relas: &Vec<OutputRelocationSection>,
    base: u64,
    Ghost(p): Ghost<WriterModel>,
)
    requires
        writing(p, writer_model(*old(w))),
        forall|i: int|
            0 <= i < relas@.len() ==> (#[trigger] relas@[i]).offset == placed_at(
                writer_model(*old(w)).buffer.len(),
                rela_lens(relas@),
                8,
                i,
            ),
        placed_end(writer_model(*old(w)).buffer.len(), rela_lens(relas@), 8, relas@.len() as int)
            <= p.reserved,
        p.reserved <= usize::MAX,
    ensures
        writing(p, writer_model(*final(w))),
        writer_model(*final(w)).buffer == relas_image(
            writer_model(*old(w)).buffer,
            relas@,
            base,
            relas@.len() as int,
        ),
        writer_model(*final(w)).buffer.len() == placed_end(
            writer_model(*old(w)).buffer.len(),
            rela_lens(relas@),
            8,
            relas@.len() as int,
        ),
{
    reveal(placed_end);
    let ghost start = writer_model(*w).buffer;
    let ghost lens = rela_lens(relas@);
    let n = relas.len();
    let mut i: usize = 0;
    while i < n
        invariant
            i <= n,
            n == relas@.len(),
            lens == rela_lens(relas@),
            writing(p, writer_model(*w)),
            p.reserved <= usize::MAX,
            forall|k: int|
                0 <= k < n ==> (#[trigger] relas@[k]).offset == placed_at(start.len(), lens, 8, k),
            placed_end(start.len(), lens, 8, n as int) <= p.reserved,
            writer_model(*w).buffer == relas_image(start, relas@, base, i as int),
            writer_model(*w).buffer.len() == placed_end(start.len(), lens, 8, i as int),
        decreases n - i,
    {
        reveal(placed_end);
        proof {
            lemma_align_up(placed_end(start.len(), lens, 8, i as int), 8);
            lemma_placed_monotone(start.len(), lens, 8, i + 1, n as int);
            assert(lens[i as int] == relas@[i as int].relocations@.len() * 24);
        }
        pad_until(w, relas[i].offset as usize);
        let ghost padded = writer_model(*w).buffer;
        let records = &relas[i].relocations;
        let count = records.len();
        let mut j: usize = 0;
        assert(padded + records_image(records@, base, 0) =~= padded);
        while j < count
            invariant
                j <= count,
                count == records@.len(),
                writing(p, writer_model(*w)),
                padded.len() + 24 * count <= p.reserved,
                writer_model(*w).buffer == padded + records_image(records@, base, j as int),
            decreases count - j,
        {
            proof {
                lemma_records_len(records@, base, j as int);
            }
            let record = Rel {
                r_offset: records[j].r_offset.wrapping_add(base),
                r_sym: records[j].r_sym,
                r_type: records[j].r_type,
                r_addend: records[j].r_addend,
            };
            write_relocation(w, &record);
            proof {
                assert(padded + records_image(records@, base, j as int) + rela_bytes(
                    rebased(records@[j as int], base),
                ) =~= padded + records_image(records@, base, j + 1));
            }
            j += 1;
        }
        proof {
            lemma_records_len(records@, base, count as int);
        }
        i += 1;
    }
}

/// The bytes of the first `n` of the section headers, their names looked up
/// in the table `t`.
pub open spec fn headers_image(t: StringTable, headers: Seq<SectionHeader>, n: int) -> Seq<u8>
    decreases n,
{
    if n <= 0 {
        Seq::empty()
    } else {
        headers_image(t, headers, n - 1) + section_header_bytes(
            offset_of(t, headers[n - 1].name),
            headers[n - 1],
        )
    }
}

/// A section header is 64 bytes long.
pub proof fn lemma_headers_len(t: StringTable, headers: Seq<SectionHeader>, n: int)
    requires
        0 <= n <= headers.len(),
    ensures
        headers_image(t, headers, n).len() == 64 * n,
    decreases n,
{
    if n > 0 {
        lemma_headers_len(t, headers, n - 1);
    }
}

/// The section headers that the writer makes by itself for the static
/// tables.
pub open spec fn static_headers(p: WriterModel, num_local: u32) -> Seq<u8> {
    symtab_header(p, num_local) + strtab_header(p) + shstrtab_header(p)
}

/// The addresses of the dynamic tables.
#[derive(Debug, Copy, Clone)]
pub struct DynamicAddresses {
    pub dynamic: u64,
    pub dynsym: u64,
    pub dynstr: u64,
    pub hash: u64,
    pub gnu_hash: u64,
}

/// The section headers that the writer makes by itself for the dynamic
/// tables.
pub open spec fn dynamic_headers(p: WriterModel, a: DynamicAddresses) -> Seq<u8> {
    dynamic_header(p, a.dynamic) + dynsym_header(p, a.dynsym, 1) + dynstr_header(p, a.dynstr) + (
    if p.hash_named {
        hash_section_header(p, a.hash)
    } else {
        Seq::empty()
    }) + (if p.gnu_hash_named {
        gnu_hash_section_header(p, a.gnu_hash)
    } else {
        Seq::empty()
    })
}

/// The number of section headers that the writer makes for the dynamic
/// tables.
pub open spec fn dynamic_header_count(p: WriterModel) -> nat {
    if p.dynamic_named {
        3 + (if p.hash_named {
            1nat
        } else {
            0
        }) + (if p.gnu_hash_named {
            1nat
        } else {
            0
        })
    } else {
        0
    }
}

/// The section header table: the null header, the given headers, and the
/// writer's own.
pub open spec fn section_table(
    p: WriterModel,
    headers: Seq<SectionHeader>,
    num_local: u32,
    a: DynamicAddresses,
) -> Seq<u8> {
    zeros(64) + headers_image(p.shstrtab, headers, headers.len() as int) + static_headers(
        p,
        num_local,
    ) + (if p.dynamic_named {
        dynamic_headers(p, a)
    } else {
        Seq::empty()
    })
}

/// Writes the given section headers.
pub(crate) fn write_header_list(
    w: &mut Writer<'_>,
    headers: &Vec<SectionHeader>,
    Ghost(p): Ghost<WriterModel>,
)
    requires
        writing(p, writer_model(*old(w))),
        forall|i: int| 0 <= i < headers@.len() ==> has_offset(p.shstrtab, (#[trigger] headers@[i]).name),
        writer_model(*old(w)).buffer.len() + 64 * headers@.len() <= p.reserved,
    ensures
        writing(p, writer_model(*final(w))),
        writer_model(*final(w)).buffer == writer_model(*old(w)).buffer + headers_image(
            p.shstrtab,
            headers@,
            headers@.len() as int,
        ),
        writer_model(*final(w)).buffer.len() == writer_model(*old(w)).buffer.len() + 64
            * headers@.len(),
{
    let ghost start = writer_model(*w).buffer;
    let n = headers.len();
    let mut i: usize = 0;
    assert(start + headers_image(p.shstrtab, headers@, 0) =~= start);
    while i < n
        invariant
            i <= n,
            n == headers@.len(),
            writing(p, writer_model(*w)),
            forall|k: int|
                0 <= k < headers@.len() ==> has_offset(p.shstrtab, (#[trigger] headers@[k]).name),
            start.len() + 64 * n <= p.reserved,
            writer_model(*w).buffer == start + headers_image(p.shstrtab, headers@, i as int),
        decreases n - i,
    {
        proof {
            lemma_headers_len(p.shstrtab, headers@, i as int);
            assert(has_offset(p.shstrtab, headers@[i as int].name));
        }
        write_section_header(w, &headers[i]);
        proof {
            assert(start + headers_image(p.shstrtab, headers@, i as int) + section_header_bytes(
                offset_of(p.shstrtab, headers@[i as int].name),
                headers@[i as int],
            ) =~= start + headers_image(p.shstrtab, headers@, i + 1));
        }
        i += 1;
    }
    proof {
        lemma_headers_len(p.shstrtab, headers@, n as int);
    }
}

/// Each of the writer's own section headers is 64 bytes long.
pub proof fn lemma_own_headers_len(p: WriterModel, num_local: u32, a: DynamicAddresses)
    ensures
        symtab_header(p, num_local).len() == 64,
        strtab_header(p).len() == 64,
        shstrtab_header(p).len() == 64,
        dynamic_header(p, a.dynamic).len() == 64,
        dynsym_header(p, a.dynsym, 1).len() == 64,
        dynstr_header(p, a.dynstr).len() == 64,
        hash_section_header(p, a.hash).len() == 64,
        gnu_hash_section_header(p, a.gnu_hash).len() == 64,
        static_headers(p, num_local).len() == 192,
        dynamic_headers(p, a).len() == 64 * dynamic_header_count(
            WriterModel { dynamic_named: true, ..p },
        ),
{
}

/// Writes the section headers of the static tables.
pub(crate) fn write_static_headers(w: &mut Writer<'_>, num_local: u32, Ghost(p): Ghost<WriterModel>)
    requires
        writing(p, writer_model(*old(w))),
        is_laid_out(p.shstrtab),
        writer_model(*old(w)).buffer.len() + 192 <= p.reserved,
        p.symtab_index != 0,
        p.strtab_index != 0,
        p.shstrtab_index != 0,
    ensures
        writing(p, writer_model(*final(w))),
        writer_model(*final(w)).buffer == writer_model(*old(w)).buffer + static_headers(
            p,
            num_local,
        ),
        writer_model(*final(w)).buffer.len() == writer_model(*old(w)).buffer.len() + 192,
{
    let ghost start = writer_model(*w).buffer;
    let ghost none = DynamicAddresses { dynamic: 0, dynsym: 0, dynstr: 0, hash: 0, gnu_hash: 0 };
    proof {
        lemma_own_headers_len(p, num_local, none);
    }
    write_symtab_section_header(w, num_local);
    assert(writer_model(*w).buffer == start + symtab_header(p, num_local));
    write_strtab_section_header(w);
    assert(writer_model(*w).buffer == start + symtab_header(p, num_local) + strtab_header(p));
    write_shstrtab_section_header(w);
    assert(writer_model(*w).buffer =~= start + static_headers(p, num_local));
}

/// Writes the section headers of the dynamic tables.
pub(crate) fn write_dynamic_headers(
    w: &mut Writer<'_>,
    addresses: &DynamicAddresses,
    Ghost(p): Ghost<WriterModel>,
)
    requires
        writing(p, writer_model(*old(w))),
        is_laid_out(p.shstrtab),
        p.dynamic_named,
        p.dynsym_index != 0,
        p.dynstr_index != 0,
        writer_model(*old(w)).buffer.len() + 64 * dynamic_header_count(p) <= p.reserved,
    ensures
        writing(p, writer_model(*final(w))),
        writer_model(*final(w)).buffer == writer_model(*old(w)).buffer + dynamic_headers(
            p,
            *addresses,
        ),
        writer_model(*final(w)).buffer.len() == writer_model(*old(w)).buffer.len() + 64
            * dynamic_header_count(p),
{
    let ghost start = writer_model(*w).buffer;
    proof {
        lemma_own_headers_len(p, 0, *addresses);
    }
    write_dynamic_section_header(w, addresses.dynamic);
    write_dynsym_section_header(w, addresses.dynsym, 1);
    write_dynstr_section_header(w, addresses.dynstr);
    let ghost three = writer_model(*w).buffer;
    assert(three =~= start + dynamic_header(p, addresses.dynamic) + dynsym_header(
        p,
        addresses.dynsym,
        1,
    ) + dynstr_header(p, addresses.dynstr));
    write_hash_section_header(w, addresses.hash);
    let ghost four = writer_model(*w).buffer;
    write_gnu_hash_section_header(w, addresses.gnu_hash);
    proof {
        let end = writer_model(*w).buffer;
        assert(four =~= three + (if p.hash_named {
            hash_section_header(p, addresses.hash)
        } else {
            Seq::empty()
        }));
        assert(end =~= four + (if p.gnu_hash_named {
            gnu_hash_section_header(p, addresses.gnu_hash)
        } else {
            Seq::empty()
        }));
        assert(end =~= start + dynamic_headers(p, *addresses));
    }
}

/// Writes the section header table.
#[verifier::rlimit(60)]
#[verifier::spinoff_prover]
pub(crate) fn write_section_table(
    w: &mut Writer<'_>,
    headers: &Vec<SectionHeader>,
    num_local: u32,
    addresses: &DynamicAddresses,
    dynamic: bool,
    Ghost(p): Ghost<WriterModel>,
)
    requires
        writing(p, writer_model(*old(w))),
        dynamic == p.dynamic_named,
        is_laid_out(p.shstrtab),
        forall|i: int| 0 <= i < headers@.len() ==> has_offset(p.shstrtab, (#[trigger] headers@[i]).name),
        align_up(writer_model(*old(w)).buffer.len(), 8) == p.section_offset,
        p.section_num == 1 + headers@.len() + 3 + dynamic_header_count(p),
        p.section_num < 0xff00,
        p.section_offset + 64 * p.section_num <= p.reserved,
        p.symtab_index != 0,
        p.strtab_index != 0,
        p.shstrtab_index != 0,
        p.shstrtab_index < 0xff00,
        p.dynamic_named ==> p.dynsym_index != 0 && p.dynstr_index != 0,
    ensures
        writing(p, writer_model(*final(w))),
        writer_model(*final(w)).buffer == padded(writer_model(*old(w)).buffer, 8) + section_table(
            p,
            headers@,
            num_local,
            *addresses,
        ),
        writer_model(*final(w)).buffer.len() == p.section_offset + 64 * p.section_num,
{
    let ghost start = padded(writer_model(*w).buffer, 8);
    proof {
        lemma_align_up(writer_model(*w).buffer.len(), 8);
    }
    write_null_section_header(w);
    write_header_list(w, headers, Ghost(p));
    write_static_headers(w, num_local, Ghost(p));
    if dynamic {
        write_dynamic_headers(w, addresses, Ghost(p));
    }
    proof {
        let end = writer_model(*w).buffer;
        assert(end =~= start + section_table(p, headers@, num_local, *addresses));
    }
}

/// The bytes of the first `n` of the symbols, their names looked up in the
/// table `t`.
pub open spec fn symbols_image(t: StringTable, symbols: Seq<Sym>, n: int) -> Seq<u8>
    decreases n,
{
    if n <= 0 {
        Seq::empty()
    } else {
        symbols_image(t, symbols, n - 1) + symbol_bytes(
            offset_of(t, symbols[n - 1].name),
            symbols[n - 1],
        )
    }
}

/// A symbol is 24 bytes long.
pub proof fn lemma_symbols_len(t: StringTable, symbols: Seq<Sym>, n: int)
    requires
        0 <= n <= symbols.len(),
    ensures
        symbols_image(t, symbols, n).len() == 24 * n,
    decreases n,
{
    if n > 0 {
        lemma_symbols_len(t, symbols, n - 1);
    }
}

/// The symbols can be written with names from the table `t`.
pub open spec fn symbols_writable(t: StringTable, symbols: Seq<Sym>) -> bool {
    forall|i: int|
        0 <= i < symbols.len() ==> has_offset(t, (#[trigger] symbols[i]).name) && (
        symbols[i].section is Some ==> symbols[i].section->Some_0 < 0xff00)
}

/// Writes `.symtab`: the null symbol, then the given symbols.
pub(crate) fn write_symtab(w: &mut Writer<'_>, symbols: &Vec<Sym>, Ghost(p): Ghost<WriterModel>)
    requires
        writing(p, writer_model(*old(w))),
        symbols_writable(p.strtab, symbols@),
        align_up(writer_model(*old(w)).buffer.len(), 8) == p.symtab_offset,
        p.symtab_num == 1 + symbols@.len(),
        p.symtab_offset + 24 * p.symtab_num <= p.reserved,
    ensures
        writing(p, writer_model(*final(w))),
        writer_model(*final(w)).buffer == padded(writer_model(*old(w)).buffer, 8) + zeros(24)
            + symbols_image(p.strtab, symbols@, symbols@.len() as int),
        writer_model(*final(w)).buffer.len() == p.symtab_offset + 24 * p.symtab_num,
{
    proof {
        lemma_align_up(writer_model(*w).buffer.len(), 8);
    }
    write_null_symbol(w);
    let ghost start = writer_model(*w).buffer;
    let n = symbols.len();
    let mut i: usize = 0;
    assert(start + symbols_image(p.strtab, symbols@, 0) =~= start);
    while i < n
        invariant
            i <= n,
            n == symbols@.len(),
            writing(p, writer_model(*w)),
            symbols_writable(p.strtab, symbols@),
            start.len() == p.symtab_offset + 24,
            p.symtab_num == 1 + n,
            p.symtab_offset + 24 * p.symtab_num <= p.reserved,
            writer_model(*w).buffer == start + symbols_image(p.strtab, symbols@, i as int),
        decreases n - i,
    {
        proof {
            lemma_symbols_len(p.strtab, symbols@, i as int);
            assert(has_offset(p.strtab, symbols@[i as int].name));
        }
        write_symbol(w, &symbols[i]);
        proof {
            assert(start + symbols_image(p.strtab, symbols@, i as int) + symbol_bytes(
                offset_of(p.strtab, symbols@[i as int].name),
                symbols@[i as int],
            ) =~= start + symbols_image(p.strtab, symbols@, i + 1));
        }
        i += 1;
    }
    proof {
        lemma_symbols_len(p.strtab, symbols@, n as int);
    }
}

/// Writes `.dynsym`: the null symbol, then the given symbols.
pub(crate) fn write_dynsym(w: &mut Writer<'_>, symbols: &Vec<Sym>, Ghost(p): Ghost<WriterModel>)
    requires
        writing(p, writer_model(*old(w))),
        symbols_writable(p.dynstr, symbols@),
        align_up(writer_model(*old(w)).buffer.len(), 8) == p.dynsym_offset,
        p.dynsym_num == 1 + symbols@.len(),
        p.dynsym_offset + 24 * p.dynsym_num <= p.reserved,
    ensures
        writing(p, writer_model(*final(w))),
        writer_model(*final(w)).buffer == padded(writer_model(*old(w)).buffer, 8) + zeros(24)
            + symbols_image(p.dynstr, symbols@, symbols@.len() as int),
        writer_model(*final(w)).buffer.len() == p.dynsym_offset + 24 * p.dynsym_num,
{
    proof {
        lemma_align_up(writer_model(*w).buffer.len(), 8);
    }
    write_null_dynamic_symbol(w);
    let ghost start = writer_model(*w).buffer;
    let n = symbols.len();
    let mut i: usize = 0;
    assert(start + symbols_image(p.dynstr, symbols@, 0) =~= start);
    while i < n
        invariant
            i <= n,
            n == symbols@.len(),
            writing(p, writer_model(*w)),
            symbols_writable(p.dynstr, symbols@),
            start.len() == p.dynsym_offset + 24,
            p.dynsym_num == 1 + n,
            p.dynsym_offset + 24 * p.dynsym_num <= p.reserved,
            writer_model(*w).buffer == start + symbols_image(p.dynstr, symbols@, i as int),
        decreases n - i,
    {
        proof {
            lemma_symbols_len(p.dynstr, symbols@, i as int);
            assert(has_offset(p.dynstr, symbols@[i as int].name));
        }
        write_dynamic_symbol(w, &symbols[i]);
        proof {
            assert(start + symbols_image(p.dynstr, symbols@, i as int) + symbol_bytes(
                offset_of(p.dynstr, symbols@[i as int].name),
                symbols@[i as int],
            ) =~= start + symbols_image(p.dynstr, symbols@, i + 1));
        }
        i += 1;
    }
    proof {
        lemma_symbols_len(p.dynstr, symbols@, n as int);
    }
}

/// The bytes of one entry of the dynamic table, a string given by its offset
/// in the table `t`.
pub open spec fn entry_bytes(t: StringTable, e: DynamicEntry) -> Seq<u8> {
    match e.value {
        DynamicValue::Number(value) => dynamic_bytes(e.tag, value),
        DynamicValue::String(id) => dynamic_bytes(e.tag, offset_of(t, Some(id)) as u64),
    }
}

/// The bytes of the first `n` entries of the dynamic table.
pub open spec fn entries_image(t: StringTable, entries: Seq<DynamicEntry>, n: int) -> Seq<u8>
    decreases n,
{
    if n <= 0 {
        Seq::empty()
    } else {
        entries_image(t, entries, n - 1) + entry_bytes(t, entries[n - 1])
    }
}

/// An entry of the dynamic table is 16 bytes long.
pub proof fn lemma_entries_len(t: StringTable, entries: Seq<DynamicEntry>, n: int)
    requires
        0 <= n <= entries.len(),
    ensures
        entries_image(t, entries, n).len() == 16 * n,
    decreases n,
{
    if n > 0 {
        lemma_entries_len(t, entries, n - 1);
    }
}

/// The strings of the entries are strings of the table `t`.
pub open spec fn entries_writable(t: StringTable, entries: Seq<DynamicEntry>) -> bool {
    forall|i: int|
        0 <= i < entries.len() ==> match (#[trigger] entries[i]).value {
            DynamicValue::Number(_) => true,
            DynamicValue::String(id) => has_offset(t, Some(id)),
        }
}

/// Writes the dynamic table.
pub(crate) fn write_dynamic_table(
    w: &mut Writer<'_>,
    entries: &Vec<DynamicEntry>,
    Ghost(p): Ghost<WriterModel>,
)
    requires
        writing(p, writer_model(*old(w))),
        entries_writable(p.dynstr, entries@),
        p.dynamic_offset != 0,
        align_up(writer_model(*old(w)).buffer.len(), 8) == p.dynamic_offset,
        p.dynamic_offset + 16 * entries@.len() <= p.reserved,
    ensures
        writing(p, writer_model(*final(w))),
        writer_model(*final(w)).buffer == padded(writer_model(*old(w)).buffer, 8) + entries_image(
            p.dynstr,
            entries@,
            entries@.len() as int,
        ),
        writer_model(*final(w)).buffer.len() == p.dynamic_offset + 16 * entries@.len(),
{
    proof {
        lemma_align_up(writer_model(*w).buffer.len(), 8);
    }
    write_align_dynamic(w);
    let ghost start = writer_model(*w).buffer;
    let n = entries.len();
    let mut i: usize = 0;
    assert(start + entries_image(p.dynstr, entries@, 0) =~= start);
    while i < n
        invariant
            i <= n,
            n == entries@.len(),
            writing(p, writer_model(*w)),
            entries_writable(p.dynstr, entries@),
            start.len() == p.dynamic_offset,
            p.dynamic_offset + 16 * n <= p.reserved,
            writer_model(*w).buffer == start + entries_image(p.dynstr, entries@, i as int),
        decreases n - i,
    {
        proof {
            lemma_entries_len(p.dynstr, entries@, i as int);
        }
        let entry = &entries[i];
        assert(entries@[i as int] == *entry);
        match entry.value {
            DynamicValue::Number(value) => {
                write_dynamic(w, entry.tag, value);
            },
            DynamicValue::String(id) => {
                write_dynamic_string(w, entry.tag, id);
            },
        }
        proof {
            assert(start + entries_image(p.dynstr, entries@, i as int) + entry_bytes(
                p.dynstr,
                entries@[i as int],
            ) =~= start + entries_image(p.dynstr, entries@, i + 1));
        }
        i += 1;
    }
    proof {
        lemma_entries_len(p.dynstr, entries@, n as int);
    }
}

/// In a laid out file every part lies behind the part before it, and none
/// reaches beyond the reserved length.
pub proof fn lemma_layout_order(shape: Shape, p: WriterModel)
    requires
        laid_out_for(shape, p),
    ensures
        shape.headers_end() <= shape.sections_end() <= shape.relas_end() <= p.section_offset,
        p.section_offset + 64 * p.section_num <= p.symtab_offset,
        static_end(p) <= p.reserved,
        shape.has_dynamic() ==> {
            &&& static_end(p) <= p.dynamic_offset
            &&& p.dynamic_offset + 16 * p.dynamic_num <= p.dynsym_offset
            &&& dynstr_end(p) <= p.reserved
            &&& shape.hash_style.sysv ==> dynstr_end(p) <= p.hash_offset && p.hash_offset
                + p.hash_size <= p.reserved
            &&& shape.hash_style.gnu ==> p.gnu_hash_offset + p.gnu_hash_size <= p.reserved
            &&& shape.hash_style.gnu && shape.hash_style.sysv ==> p.hash_offset + p.hash_size
                <= p.gnu_hash_offset
            &&& shape.hash_style.gnu && !shape.hash_style.sysv ==> dynstr_end(p)
                <= p.gnu_hash_offset
        },
{
    reveal(placed_end);
    lemma_placed_monotone(
        shape.headers_end(),
        shape.section_lens,
        4096,
        0,
        shape.section_lens.len() as int,
    );
    lemma_placed_monotone(shape.sections_end(), shape.rela_lens, 8, 0, shape.rela_lens.len() as int);
    lemma_align_up(shape.relas_end(), 8);
    lemma_align_up(p.section_offset + 64 * p.section_num, 8);
    if shape.has_dynamic() {
        lemma_align_up(static_end(p), 8);
        lemma_align_up(p.dynamic_offset + 16 * p.dynamic_num, 8);
        lemma_align_up(dynstr_end(p), 4);
        lemma_align_up(dynstr_end(p), 8);
        lemma_align_up(p.hash_offset + p.hash_size, 8);
    }
}

impl Linker {
    /// The writer in the state `p` holds the reservation of the output of
    /// this linker, and the linker holds the places and names of that
    /// reservation.
    #[verifier::opaque]
    pub open spec fn ready_to_write(&self, p: WriterModel) -> bool {
        &&& laid_out_for(self.shape(), p)
        &&& self.placed_in(p)
        &&& is_laid_out(p.strtab)
        &&& is_laid_out(p.shstrtab)
        &&& self.shape().has_dynamic() ==> is_laid_out(p.dynstr)
    }

    /// The address that is added to the places of the dynamic relocations:
    /// that of `.got.plt`, where there are dynamic relocations.
    pub open spec fn rela_base(&self) -> Result<u64, LinkErrorView> {
        if self.output_relocations@.len() == 0 {
            Ok(0)
        } else if !self.addresses().dom().contains(".got.plt"@) {
            Err(LinkErrorView::Undefined(".got.plt"@))
        } else {
            Ok(self.addresses()[".got.plt"@])
        }
    }

    /// The front of the output file: the file header, the program headers,
    /// the output sections and the dynamic relocations, each at its place.
    #[verifier::opaque]
    pub open spec fn front_image(&self, p: WriterModel) -> Result<Seq<u8>, LinkErrorView> {
        match entry_point(self.opt.shared, views(self.symbols@), self.addresses()) {
            Err(e) => Err(e),
            Ok(entry) => match self.program_headers_of(p.reserved as u64) {
                Err(e) => Err(e),
                Ok(headers) => match self.rela_base() {
                    Err(e) => Err(e),
                    Ok(base) => Ok(
                        relas_image(
                            sections_image(
                                file_header_bytes(file_header(self.opt.shared, entry), p)
                                    + program_headers_image(headers, headers.len() as int),
                                self.output_sections@,
                                self.output_sections@.len() as int,
                            ),
                            self.output_relocations@,
                            base,
                            self.output_relocations@.len() as int,
                        ),
                    ),
                },
            },
        }
    }

    /// Writes the front of the output file.
    pub(crate) fn write_front(&self, w: &mut Writer<'_>, Ghost(p): Ghost<WriterModel>) -> (res:
        Result<(), LinkError>)
        requires
            writer_model(*old(w)) == p,
            self.ready_to_write(p),
        ensures
            match self.front_image(p) {
                Ok(image) => res is Ok && writer_model(*final(w)).buffer == image,
                Err(e) => res is Err && res->Err_0@ == e,
            },
            res is Ok ==> writing(p, writer_model(*final(w))) && writer_model(
                *final(w),
            ).buffer.len() == self.shape().relas_end(),
    {
        reveal(Linker::front_image);
        reveal(Linker::ready_to_write);
        let file_size = reserved_len(w);
        let header = match self.make_file_header() {
            Err(e) => {
                return Err(e);
            },
            Ok(h) => h,
        };
        let headers = match self.make_program_headers(file_size as u64) {
            Err(e) => {
                return Err(e);
            },
            Ok(h) => h,
        };
        let base = if self.output_relocations.len() == 0 {
            0
        } else {
            match section_address(&self.section_address, ".got.plt") {
                None => {
                    return Err(LinkError::Undefined(String::from_str(".got.plt")));
                },
                Some(a) => a,
            }
        };
        proof {
            lemma_layout_order(self.shape(), p);
        }
        write_headers(w, &header, &headers, Ghost(p));
        write_sections(w, &self.output_sections, Ghost(p));
        write_relas(w, &self.output_relocations, base, Ghost(p));
        Ok(())
    }
}

impl Linker {
    /// The addresses of the dynamic tables: load address plus file offset,
    /// in 64 bits.
    pub open spec fn dynamic_addresses(&self) -> DynamicAddresses {
        DynamicAddresses {
            dynamic: self.dynamic_section_offset.wrapping_add(self.load_address),
            dynsym: self.dynsym_section_offset.wrapping_add(self.load_address),
            dynstr: self.dynstr_section_offset.wrapping_add(self.load_address),
            hash: self.hash_section_offset.wrapping_add(self.load_address),
            gnu_hash: self.gnu_hash_section_offset.wrapping_add(self.load_address),
        }
    }

    /// What `sh_info` of `.symtab` holds: one more than the number of local
    /// symbols.
    pub open spec fn first_global(&self) -> u32 {
        (1 + local_count(views(self.symbols@))) as u32
    }

    /// The section header table of the output file.
    #[verifier::opaque]
    pub open spec fn headers_part(&self, p: WriterModel) -> Result<Seq<u8>, LinkErrorView> {
        match self.section_headers_of() {
            Err(e) => Err(e),
            Ok(headers) => Ok(
                section_table(p, headers, self.first_global(), self.dynamic_addresses()),
            ),
        }
    }

    /// `.symtab`, `.strtab` and `.shstrtab` of the output file.
    #[verifier::opaque]
    pub open spec fn symbols_part(&self, p: WriterModel) -> Result<Seq<u8>, LinkErrorView> {
        match self.static_records() {
            Err(e) => Err(e),
            Ok(records) => Ok(
                zeros(24) + symbols_image(p.strtab, records, records.len() as int) + p.strtab.data
                    + p.shstrtab.data,
            ),
        }
    }

    /// The static tables of the output file, behind the bytes `front`: the
    /// section header table, `.symtab`, `.strtab` and `.shstrtab`.
    pub open spec fn tables_image(&self, p: WriterModel, front: Seq<u8>) -> Result<
        Seq<u8>,
        LinkErrorView,
    > {
        match self.headers_part(p) {
            Err(e) => Err(e),
            Ok(table) => match self.symbols_part(p) {
                Err(e) => Err(e),
                Ok(symbols) => Ok(padded(padded(front, 8) + table, 8) + symbols),
            },
        }
    }

    /// The names of the section headers are strings of `.shstrtab`.
    pub proof fn lemma_headers_writable(&self, p: WriterModel, headers: Seq<SectionHeader>)
        requires
            self.sections_placed(p),
            is_laid_out(p.shstrtab),
            headers.len() == self.output_sections@.len() + self.output_relocations@.len(),
            forall|i: int|
                0 <= i < self.output_sections@.len() ==> (#[trigger] headers[i]).name
                    == self.output_sections@[i].name_string_id,
            forall|j: int|
                0 <= j < self.output_relocations@.len() ==> (#[trigger] headers[
                    self.output_sections@.len() + j
                ]).name == self.output_relocations@[j].name_string_id,
        ensures
            forall|i: int| 0 <= i < headers.len() ==> has_offset(p.shstrtab, (#[trigger] headers[i]).name),
    {
        let n = self.output_sections@.len();
        assert forall|i: int| 0 <= i < headers.len() implies has_offset(
            p.shstrtab,
            (#[trigger] headers[i]).name,
        ) by {
            if i < n {
                assert(within(self.output_sections@[i].name_string_id, p.shstrtab));
            } else {
                let j = i - n;
                assert(headers[n + j].name == self.output_relocations@[j].name_string_id);
                assert(within(self.output_relocations@[j].name_string_id, p.shstrtab));
            }
        }
    }

    /// Writes the section header table.
    #[verifier::rlimit(60)]
    #[verifier::spinoff_prover]
    pub(crate) fn write_headers_part(&self, w: &mut Writer<'_>, Ghost(p): Ghost<WriterModel>) -> (res:
        Result<(), LinkError>)
        requires
            writing(p, writer_model(*old(w))),
            writer_model(*old(w)).buffer.len() == self.shape().relas_end(),
            self.ready_to_write(p),
        ensures
            match self.headers_part(p) {
                Ok(image) => res is Ok && writer_model(*final(w)).buffer == padded(
                    writer_model(*old(w)).buffer,
                    8,
                ) + image,
                Err(e) => res is Err && res->Err_0@ == e,
            },
            res is Ok ==> writing(p, writer_model(*final(w))) && writer_model(
                *final(w),
            ).buffer.len() == p.section_offset + 64 * p.section_num,
    {
        reveal(Linker::headers_part);
        reveal(Linker::ready_to_write);
        let headers = match self.make_section_headers() {
            Err(e) => {
                return Err(e);
            },
            Ok(h) => h,
        };
        let locals = count_locals(&self.symbols);
        let addresses = DynamicAddresses {
            dynamic: self.dynamic_section_offset.wrapping_add(self.load_address),
            dynsym: self.dynsym_section_offset.wrapping_add(self.load_address),
            dynstr: self.dynstr_section_offset.wrapping_add(self.load_address),
            hash: self.hash_section_offset.wrapping_add(self.load_address),
            gnu_hash: self.gnu_hash_section_offset.wrapping_add(self.load_address),
        };
        let dynamic = self.opt.shared || self.dynamic_link;
        proof {
            lemma_layout_order(self.shape(), p);
            self.lemma_headers_writable(p, headers@);
            assert(self.shape().symbol_names.len() == self.symbols@.len());
        }
        write_section_table(w, &headers, 1 + locals as u32, &addresses, dynamic, Ghost(p));
        Ok(())
    }

    /// Writes `.symtab`, `.strtab` and `.shstrtab`.
    pub(crate) fn write_symbols_part(&self, w: &mut Writer<'_>, Ghost(p): Ghost<WriterModel>) -> (res:
        Result<(), LinkError>)
        requires
            writing(p, writer_model(*old(w))),
            writer_model(*old(w)).buffer.len() == p.section_offset + 64 * p.section_num,
            self.ready_to_write(p),
        ensures
            match self.symbols_part(p) {
                Ok(image) => res is Ok && writer_model(*final(w)).buffer == padded(
                    writer_model(*old(w)).buffer,
                    8,
                ) + image,
                Err(e) => res is Err && res->Err_0@ == e,
            },
            res is Ok ==> writing(p, writer_model(*final(w))) && writer_model(
                *final(w),
            ).buffer.len() == static_end(p),
            res is Ok && !self.shape().has_dynamic() ==> static_end(p) == p.reserved,
    {
        reveal(Linker::symbols_part);
        reveal(Linker::ready_to_write);
        let records = match self.make_static_records() {
            Err(e) => {
                return Err(e);
            },
            Ok(r) => r,
        };
        proof {
            lemma_layout_order(self.shape(), p);
            self.lemma_records_writable(p, records@);
        }
        let ghost start = padded(writer_model(*w).buffer, 8);
        write_symtab(w, &records, Ghost(p));
        write_strtab(w);
        write_shstrtab(w);
        proof {
            assert(writer_model(*w).buffer =~= start + self.symbols_part(p)->Ok_0);
        }
        Ok(())
    }

    /// Writes the static tables of the output file.
    pub(crate) fn write_tables(&self, w: &mut Writer<'_>, Ghost(p): Ghost<WriterModel>) -> (res:
        Result<(), LinkError>)
        requires
            writing(p, writer_model(*old(w))),
            writer_model(*old(w)).buffer.len() == self.shape().relas_end(),
            self.ready_to_write(p),
        ensures
            match self.tables_image(p, writer_model(*old(w)).buffer) {
                Ok(image) => res is Ok && writer_model(*final(w)).buffer == image,
                Err(e) => res is Err && res->Err_0@ == e,
            },
            res is Ok ==> writing(p, writer_model(*final(w))) && writer_model(
                *final(w),
            ).buffer.len() == static_end(p),
            res is Ok && !self.shape().has_dynamic() ==> static_end(p) == p.reserved,
            res is Ok ==> self.static_tables_stand(writer_model(*final(w)).buffer, p),
    {
        let ghost b0 = writer_model(*w).buffer;
        match self.write_headers_part(w, Ghost(p)) {
            Err(e) => {
                return Err(e);
            },
            Ok(()) => {},
        }
        let ghost b1 = writer_model(*w).buffer;
        // The records are computed before anything of them is written, so
        // that a failure is the failure of the whole stage.
        let res = self.write_symbols_part(w, Ghost(p));
        proof {
            if res is Ok {
                self.lemma_static_tables_stand(p, b0, b1, writer_model(*w).buffer);
            }
        }
        res
    }

    /// The records of `.symtab` can be written: their names are strings of
    /// `.strtab`, and their section indices are below the reserved ones.
    pub proof fn lemma_records_writable(&self, p: WriterModel, records: Seq<Sym>)
        requires
            self.ready_to_write(p),
            self.static_records() == Ok::<Seq<Sym>, LinkErrorView>(records),
        ensures
            symbols_writable(p.strtab, records),
    {
        reveal(Linker::ready_to_write);
        let order = symtab_order(views(self.symbols@));
        crate::symtab::lemma_locals_first(views(self.symbols@));
        self.lemma_records_from(p, order, 0, Seq::empty());
    }

    /// Records that are built from symbols of this linker can be written.
    pub proof fn lemma_records_from(&self, p: WriterModel, order: Seq<int>, i: int, acc: Seq<Sym>)
        requires
            self.ready_to_write(p),
            0 <= i <= order.len(),
            forall|k: int| 0 <= k < order.len() ==> 0 <= #[trigger] order[k] < self.symbols@.len(),
            symbols_writable(p.strtab, acc),
            self.static_records_from(order, i, acc) is Ok,
        ensures
            symbols_writable(p.strtab, self.static_records_from(order, i, acc)->Ok_0),
        decreases order.len() - i,
    {
        reveal(Linker::ready_to_write);
        if i < order.len() {
            let s = self.symbols@[order[i]];
            let r = self.static_record(s)->Ok_0;
            assert(has_offset(p.strtab, r.name));
            if r.section is Some && !s.is_plt && s.section_name@ != ".dynamic"@ {
                let q = position(
                    crate::lookup::section_names(views(self.output_sections@)),
                    s.section_name@,
                );
                crate::lookup::lemma_position(
                    crate::lookup::section_names(views(self.output_sections@)),
                    s.section_name@,
                );
                assert(self.output_sections@[q].section_index == Some((1 + q) as u32));
            }
            let next = acc.push(r);
            assert(symbols_writable(p.strtab, next)) by {
                assert forall|k: int| 0 <= k < next.len() implies has_offset(
                    p.strtab,
                    (#[trigger] next[k]).name,
                ) && (next[k].section is Some ==> next[k].section->Some_0 < 0xff00) by {
                    if k < acc.len() {
                        assert(next[k] == acc[k]);
                    }
                }
            }
            self.lemma_records_from(p, order, i + 1, next);
        }
    }
}

impl Linker {
    /// The dynamic table of the output file.
    #[verifier::opaque]
    pub open spec fn entries_part(&self, p: WriterModel) -> Result<Seq<u8>, LinkErrorView> {
        match self.dynamic_entries(p.dynstr.data.len() as u64) {
            Err(e) => Err(e),
            Ok(entries) => Ok(entries_image(p.dynstr, entries, entries.len() as int)),
        }
    }

    /// `.dynsym` and `.dynstr` of the output file.
    #[verifier::opaque]
    pub open spec fn dynsym_part(&self, p: WriterModel) -> Result<Seq<u8>, LinkErrorView> {
        match self.dynamic_records() {
            Err(e) => Err(e),
            Ok(records) => Ok(
                zeros(24) + symbols_image(p.dynstr, records, records.len() as int) + p.dynstr.data,
            ),
        }
    }

    /// The hash tables of the output file, behind the bytes `front`.
    #[verifier::opaque]
    pub open spec fn hashes_image(&self, front: Seq<u8>) -> Seq<u8> {
        let imports = self.plt_dynamic_symbols@.len();
        let exports = views(self.dynamic_symbols@);
        let count = (imports + exports.len()) as u32;
        let first = if self.opt.hash_style.sysv {
            padded(front, 4) + hash_header(count, (count + 1) as u32) + hash_table_body(
                count,
                (count + 1) as u32,
                sysv_hashes(imports, exports),
            )
        } else {
            front
        };
        if self.opt.hash_style.gnu {
            padded(first, 8) + gnu_hash_header(
                exports.len() as u32,
                (1 + imports) as u32,
                1,
                1,
            ) + gnu_hash_table_body(
                (1 + imports) as u32,
                1,
                1,
                exports.len() as u32,
                gnu_hashes(exports),
            )
        } else {
            first
        }
    }

    /// The dynamic part of the output file, behind the bytes `front`: the
    /// dynamic table, `.dynsym`, `.dynstr` and the hash tables.
    pub open spec fn dynamic_image(&self, p: WriterModel, front: Seq<u8>) -> Result<
        Seq<u8>,
        LinkErrorView,
    > {
        match self.entries_part(p) {
            Err(e) => Err(e),
            Ok(entries) => match self.dynsym_part(p) {
                Err(e) => Err(e),
                Ok(symbols) => Ok(
                    self.hashes_image(padded(padded(front, 8) + entries, 8) + symbols),
                ),
            },
        }
    }

    /// The strings of the dynamic table are strings of `.dynstr`.
    pub proof fn lemma_entries_writable(&self, p: WriterModel, entries: Seq<DynamicEntry>)
        requires
            self.dynamic_placed(p),
            is_laid_out(p.dynstr),
            forall|i: int|
                0 <= i < entries.len() ==> match (#[trigger] entries[i]).value {
                    DynamicValue::Number(_) => true,
                    DynamicValue::String(id) => Some(id) == self.soname_dynamic_string_index
                        || exists|k: int|
                        0 <= k < self.needed@.len() && self.needed@[k].name_string_id == Some(id),
                },
        ensures
            entries_writable(p.dynstr, entries),
    {
        assert forall|i: int| 0 <= i < entries.len() implies match (#[trigger] entries[i]).value {
            DynamicValue::Number(_) => true,
            DynamicValue::String(id) => has_offset(p.dynstr, Some(id)),
        } by {
            match entries[i].value {
                DynamicValue::Number(_) => {},
                DynamicValue::String(id) => {
                    if Some(id) != self.soname_dynamic_string_index {
                        let k = choose|k: int|
                            0 <= k < self.needed@.len() && self.needed@[k].name_string_id == Some(
                                id,
                            );
                        assert(within(self.needed@[k].name_string_id, p.dynstr));
                    }
                },
            }
        }
    }

    /// Writes the dynamic table.
    pub(crate) fn write_entries_part(&self, w: &mut Writer<'_>, Ghost(p): Ghost<WriterModel>) -> (res:
        Result<(), LinkError>)
        requires
            writing(p, writer_model(*old(w))),
            writer_model(*old(w)).buffer.len() == static_end(p),
            self.ready_to_write(p),
            self.shape().has_dynamic(),
        ensures
            match self.entries_part(p) {
                Ok(image) => res is Ok && writer_model(*final(w)).buffer == padded(
                    writer_model(*old(w)).buffer,
                    8,
                ) + image,
                Err(e) => res is Err && res->Err_0@ == e,
            },
            res is Ok ==> writing(p, writer_model(*final(w))) && writer_model(
                *final(w),
            ).buffer.len() == p.dynamic_offset + 16 * p.dynamic_num,
    {
        reveal(Linker::entries_part);
        reveal(Linker::ready_to_write);
        proof {
            lemma_layout_order(self.shape(), p);
            lemma_align_up(static_end(p), 8);
        }
        let strsz = dynstr_len(w);
        let entries = match self.make_dynamic_entries(strsz as u64) {
            Err(e) => {
                return Err(e);
            },
            Ok(t) => t,
        };
        proof {
            self.lemma_entries_writable(p, entries@);
            assert(self.shape().needed_names.len() == self.needed@.len());
        }
        write_dynamic_table(w, &entries, Ghost(p));
        Ok(())
    }

    /// The records of `.dynsym` can be written: their names are strings of
    /// `.dynstr`, and their section indices are below the reserved ones.
    pub proof fn lemma_dynamic_writable(
        &self,
        p: WriterModel,
        list: Seq<crate::model::DynamicSymbol>,
        i: int,
        acc: Seq<Sym>,
    )
        requires
            self.sections_placed(p),
            self.symbols_placed(p),
            is_laid_out(p.dynstr),
            self.output_sections@.len() + 1 < 0xff00,
            0 <= i <= list.len(),
            symbols_writable(p.dynstr, acc),
            self.dynamic_records_from(list, i, acc) is Ok,
        ensures
            symbols_writable(p.dynstr, self.dynamic_records_from(list, i, acc)->Ok_0),
        decreases list.len() - i,
    {
        if i < list.len() {
            let name = list[i].name@;
            let q = position(crate::lookup::symbol_names(views(self.symbols@)), name);
            crate::lookup::lemma_position(crate::lookup::symbol_names(views(self.symbols@)), name);
            let s = self.symbols@[q];
            let r = self.dynamic_record(name)->Ok_0;
            assert(within(s.symbol_name_dynamic_string_id, p.dynstr));
            assert(has_offset(p.dynstr, r.name));
            if r.section is Some {
                let k = position(
                    crate::lookup::section_names(views(self.output_sections@)),
                    s.section_name@,
                );
                crate::lookup::lemma_position(
                    crate::lookup::section_names(views(self.output_sections@)),
                    s.section_name@,
                );
                assert(self.output_sections@[k].section_index == Some((1 + k) as u32));
            }
            let next = acc.push(r);
            assert(symbols_writable(p.dynstr, next)) by {
                assert forall|k: int| 0 <= k < next.len() implies has_offset(
                    p.dynstr,
                    (#[trigger] next[k]).name,
                ) && (next[k].section is Some ==> next[k].section->Some_0 < 0xff00) by {
                    if k < acc.len() {
                        assert(next[k] == acc[k]);
                    }
                }
            }
            self.lemma_dynamic_writable(p, list, i + 1, next);
        }
    }

    /// Writes `.dynsym` and `.dynstr`.
    pub(crate) fn write_dynsym_part(&self, w: &mut Writer<'_>, Ghost(p): Ghost<WriterModel>) -> (res:
        Result<(), LinkError>)
        requires
            writing(p, writer_model(*old(w))),
            writer_model(*old(w)).buffer.len() == p.dynamic_offset + 16 * p.dynamic_num,
            self.ready_to_write(p),
            self.shape().has_dynamic(),
        ensures
            match self.dynsym_part(p) {
                Ok(image) => res is Ok && writer_model(*final(w)).buffer == padded(
                    writer_model(*old(w)).buffer,
                    8,
                ) + image,
                Err(e) => res is Err && res->Err_0@ == e,
            },
            res is Ok ==> writing(p, writer_model(*final(w))) && writer_model(
                *final(w),
            ).buffer.len() == dynstr_end(p),
    {
        reveal(Linker::dynsym_part);
        reveal(Linker::ready_to_write);
        let records = match self.make_dynamic_records() {
            Err(e) => {
                return Err(e);
            },
            Ok(r) => r,
        };
        proof {
            lemma_layout_order(self.shape(), p);
            let imports = self.dynamic_records_from(
                self.plt_dynamic_symbols@,
                0,
                Seq::empty(),
            )->Ok_0;
            assert(self.shape().section_lens.len() == self.output_sections@.len());
            self.lemma_dynamic_writable(p, self.plt_dynamic_symbols@, 0, Seq::empty());
            self.lemma_dynamic_writable(p, self.dynamic_symbols@, 0, imports);
            assert(self.shape().import_names.len() == self.plt_dynamic_symbols@.len());
            assert(self.shape().export_names.len() == self.dynamic_symbols@.len());
        }
        let ghost start = padded(writer_model(*w).buffer, 8);
        write_dynsym(w, &records, Ghost(p));
        write_dynstr(w);
        proof {
            assert(writer_model(*w).buffer =~= start + self.dynsym_part(p)->Ok_0);
        }
        Ok(())
    }

    /// Writes the hash tables that are asked for.
    pub(crate) fn write_hashes(&self, w: &mut Writer<'_>, Ghost(p): Ghost<WriterModel>)
        requires
            writing(p, writer_model(*old(w))),
            writer_model(*old(w)).buffer.len() == dynstr_end(p),
            self.ready_to_write(p),
            self.shape().has_dynamic(),
        ensures
            writing(p, writer_model(*final(w))),
            writer_model(*final(w)).buffer == self.hashes_image(writer_model(*old(w)).buffer),
            writer_model(*final(w)).buffer.len() == p.reserved,
    {
        reveal(Linker::hashes_image);
        reveal(Linker::ready_to_write);
        proof {
            lemma_layout_order(self.shape(), p);
            assert(self.shape().import_names.len() == self.plt_dynamic_symbols@.len());
            assert(self.shape().export_names.len() == self.dynamic_symbols@.len());
        }
        let imports = self.plt_dynamic_symbols.len();
        let exports = self.dynamic_symbols.len();
        if self.opt.hash_style.sysv {
            let hashes = make_sysv_hashes(imports, &self.dynamic_symbols);
            let count = (imports + exports) as u32;
            write_hash(w, count, count + 1, &hashes);
        }
        if self.opt.hash_style.gnu {
            let hashes = make_gnu_hashes(&self.dynamic_symbols);
            write_gnu_hash(w, 1 + imports as u32, 1, 1, exports as u32, &hashes);
        }
    }

    /// Writes the dynamic part of the output file.
    pub(crate) fn write_dynamic(&self, w: &mut Writer<'_>, Ghost(p): Ghost<WriterModel>) -> (res:
        Result<(), LinkError>)
        requires
            writing(p, writer_model(*old(w))),
            writer_model(*old(w)).buffer.len() == static_end(p),
            self.ready_to_write(p),
            self.shape().has_dynamic(),
        ensures
            match self.dynamic_image(p, writer_model(*old(w)).buffer) {
                Ok(image) => res is Ok && writer_model(*final(w)).buffer == image,
                Err(e) => res is Err && res->Err_0@ == e,
            },
            res is Ok ==> writing(p, writer_model(*final(w))) && writer_model(
                *final(w),
            ).buffer.len() == p.reserved,
            res is Ok ==> self.dynamic_tables_stand(writer_model(*final(w)).buffer, p)
                && begins_with(writer_model(*final(w)).buffer, writer_model(*old(w)).buffer),
    {
        let ghost b2 = writer_model(*w).buffer;
        match self.write_entries_part(w, Ghost(p)) {
            Err(e) => {
                return Err(e);
            },
            Ok(()) => {},
        }
        let ghost b3 = writer_model(*w).buffer;
        match self.write_dynsym_part(w, Ghost(p)) {
            Err(e) => {
                return Err(e);
            },
            Ok(()) => {},
        }
        let ghost b4 = writer_model(*w).buffer;
        self.write_hashes(w, Ghost(p));
        proof {
            self.lemma_dynamic_tables_stand(p, b2, b3, b4, writer_model(*w).buffer);
        }
        Ok(())
    }
}

/// The bytes `part` stand in `bytes` at `offset`.
pub open spec fn stands_at(bytes: Seq<u8>, offset: nat, part: Seq<u8>) -> bool {
    &&& offset + part.len() <= bytes.len()
    &&& bytes.subrange(offset as int, (offset + part.len()) as int) == part
}

/// The bytes `b` begin with the bytes `a`.
pub open spec fn begins_with(b: Seq<u8>, a: Seq<u8>) -> bool {
    &&& a.len() <= b.len()
    &&& b.subrange(0, a.len() as int) == a
}

/// What stands in the beginning of some bytes stands in them.
pub proof fn lemma_stands_on(a: Seq<u8>, b: Seq<u8>, offset: nat, part: Seq<u8>)
    requires
        stands_at(a, offset, part),
        begins_with(b, a),
    ensures
        stands_at(b, offset, part),
{
    assert forall|i: int| 0 <= i < part.len() implies b[offset + i] == part[i] by {
        assert(a.subrange(offset as int, (offset + part.len()) as int)[i] == a[offset + i]);
        assert(b.subrange(0, a.len() as int)[offset + i] == b[offset + i]);
    }
    assert(b.subrange(offset as int, (offset + part.len()) as int) =~= part);
}

/// A part written behind `before`, padded to a multiple of `align`, stands
/// where the padding ends, and what was written before stays.
pub proof fn lemma_part_stands(before: Seq<u8>, align: nat, part: Seq<u8>)
    requires
        align >= 1,
    ensures
        stands_at(padded(before, align) + part, align_up(before.len(), align), part),
        begins_with(padded(before, align) + part, before),
{
    lemma_align_up(before.len(), align);
    let all = padded(before, align) + part;
    let at = align_up(before.len(), align);
    assert(all.subrange(at as int, (at + part.len()) as int) =~= part);
    assert(all.subrange(0, before.len() as int) =~= before);
}

/// Of two parts that stand one behind the other, each stands at its place.
pub proof fn lemma_stands_split(bytes: Seq<u8>, offset: nat, a: Seq<u8>, b: Seq<u8>)
    requires
        stands_at(bytes, offset, a + b),
    ensures
        stands_at(bytes, offset, a),
        stands_at(bytes, offset + a.len(), b),
{
    let whole = bytes.subrange(offset as int, (offset + (a + b).len()) as int);
    assert forall|i: int| 0 <= i < a.len() implies bytes[offset + i] == a[i] by {
        assert(whole[i] == (a + b)[i]);
    }
    assert forall|i: int| 0 <= i < b.len() implies bytes[offset + a.len() + i] == b[i] by {
        assert(whole[a.len() + i] == (a + b)[a.len() + i]);
    }
    assert(bytes.subrange(offset as int, (offset + a.len()) as int) =~= a);
    assert(bytes.subrange((offset + a.len()) as int, (offset + a.len() + b.len()) as int) =~= b);
}

impl Linker {
    /// The static tables stand in `bytes` where the reservation `p` has
    /// them: the section header table, `.symtab` with the null symbol first,
    /// `.strtab` and `.shstrtab`.
    pub open spec fn static_tables_stand(&self, bytes: Seq<u8>, p: WriterModel) -> bool {
        &&& self.headers_part(p) is Ok ==> stands_at(
            bytes,
            p.section_offset,
            self.headers_part(p)->Ok_0,
        )
        &&& self.static_records() is Ok ==> stands_at(
            bytes,
            p.symtab_offset,
            zeros(24) + symbols_image(
                p.strtab,
                self.static_records()->Ok_0,
                self.static_records()->Ok_0.len() as int,
            ),
        )
        &&& stands_at(bytes, p.strtab_offset, p.strtab.data)
        &&& stands_at(bytes, p.shstrtab_offset, p.shstrtab.data)
    }

    /// The dynamic tables stand in `bytes` where the reservation `p` has
    /// them: the dynamic table, `.dynsym` with the null symbol first, and
    /// `.dynstr`.
    pub open spec fn dynamic_tables_stand(&self, bytes: Seq<u8>, p: WriterModel) -> bool {
        &&& self.entries_part(p) is Ok ==> stands_at(
            bytes,
            p.dynamic_offset,
            self.entries_part(p)->Ok_0,
        )
        &&& self.dynamic_records() is Ok ==> stands_at(
            bytes,
            p.dynsym_offset,
            zeros(24) + symbols_image(
                p.dynstr,
                self.dynamic_records()->Ok_0,
                self.dynamic_records()->Ok_0.len() as int,
            ),
        )
        &&& stands_at(bytes, p.dynstr_offset, p.dynstr.data)
    }

    /// Every table stands in `bytes` where the reservation `p` has it.
    pub open spec fn tables_stand(&self, bytes: Seq<u8>, p: WriterModel) -> bool {
        &&& self.static_tables_stand(bytes, p)
        &&& self.shape().has_dynamic() ==> self.dynamic_tables_stand(bytes, p)
    }

    /// The static tables, written one after the other behind `b0`, stand
    /// where they were reserved.
    pub proof fn lemma_static_tables_stand(
        &self,
        p: WriterModel,
        b0: Seq<u8>,
        b1: Seq<u8>,
        b2: Seq<u8>,
    )
        requires
            self.ready_to_write(p),
            self.headers_part(p) is Ok,
            self.symbols_part(p) is Ok,
            b0.len() == self.shape().relas_end(),
            b1 == padded(b0, 8) + self.headers_part(p)->Ok_0,
            b1.len() == p.section_offset + 64 * p.section_num,
            b2 == padded(b1, 8) + self.symbols_part(p)->Ok_0,
            b2.len() == static_end(p),
        ensures
            self.static_tables_stand(b2, p),
            begins_with(b2, b0),
            begins_with(b2, b1),
    {
        reveal(Linker::ready_to_write);
        reveal(Linker::symbols_part);
        let headers = self.headers_part(p)->Ok_0;
        let records = self.static_records()->Ok_0;
        let first = zeros(24) + symbols_image(p.strtab, records, records.len() as int);
        lemma_part_stands(b0, 8, headers);
        lemma_part_stands(b1, 8, self.symbols_part(p)->Ok_0);
        lemma_stands_on(b1, b2, p.section_offset, headers);
        assert(begins_with(b2, b0)) by {
            assert(b2.subrange(0, b0.len() as int) =~= b1.subrange(0, b0.len() as int));
        }
        assert(self.symbols_part(p)->Ok_0 == (first + p.strtab.data) + p.shstrtab.data);
        lemma_stands_split(b2, p.symtab_offset, first + p.strtab.data, p.shstrtab.data);
        lemma_stands_split(b2, p.symtab_offset, first, p.strtab.data);
    }

    /// The dynamic tables, written one after the other behind `b2`, stand
    /// where they were reserved.
    pub proof fn lemma_dynamic_tables_stand(
        &self,
        p: WriterModel,
        b2: Seq<u8>,
        b3: Seq<u8>,
        b4: Seq<u8>,
        b5: Seq<u8>,
    )
        requires
            self.ready_to_write(p),
            self.shape().has_dynamic(),
            self.entries_part(p) is Ok,
            self.dynsym_part(p) is Ok,
            b2.len() == static_end(p),
            b3 == padded(b2, 8) + self.entries_part(p)->Ok_0,
            b3.len() == p.dynamic_offset + 16 * p.dynamic_num,
            b4 == padded(b3, 8) + self.dynsym_part(p)->Ok_0,
            b4.len() == dynstr_end(p),
            b5 == self.hashes_image(b4),
        ensures
            self.dynamic_tables_stand(b5, p),
            begins_with(b5, b2),
    {
        reveal(Linker::ready_to_write);
        reveal(Linker::dynsym_part);
        reveal(Linker::hashes_image);
        let entries = self.entries_part(p)->Ok_0;
        let records = self.dynamic_records()->Ok_0;
        let first = zeros(24) + symbols_image(p.dynstr, records, records.len() as int);
        lemma_part_stands(b2, 8, entries);
        lemma_part_stands(b3, 8, self.dynsym_part(p)->Ok_0);
        assert(self.dynsym_part(p)->Ok_0 == first + p.dynstr.data);
        lemma_stands_split(b4, p.dynsym_offset, first, p.dynstr.data);
        lemma_stands_on(b3, b4, p.dynamic_offset, entries);
        assert(begins_with(b5, b4)) by {
            assert(b5.subrange(0, b4.len() as int) =~= b4);
        }
        assert(begins_with(b4, b2)) by {
            assert(b4.subrange(0, b2.len() as int) =~= b3.subrange(0, b2.len() as int));
        }
        assert(begins_with(b5, b2)) by {
            assert(b5.subrange(0, b2.len() as int) =~= b4.subrange(0, b2.len() as int));
        }
        lemma_stands_on(b4, b5, p.dynamic_offset, entries);
        lemma_stands_on(b4, b5, p.dynsym_offset, first);
        lemma_stands_on(b4, b5, p.dynstr_offset, p.dynstr.data);
    }
}

impl Linker {
    /// The bytes of the output file: the front, the static tables and, where
    /// the output has a dynamic section, the dynamic part.
    pub open spec fn image(&self, p: WriterModel) -> Result<Seq<u8>, LinkErrorView> {
        match self.front_image(p) {
            Err(e) => Err(e),
            Ok(front) => match self.tables_image(p, front) {
                Err(e) => Err(e),
                Ok(tables) => if self.opt.shared || self.dynamic_link {
                    self.dynamic_image(p, tables)
                } else {
                    Ok(tables)
                },
            },
        }
    }

    /// Writes the output file, part by part, in the order in which the parts
    /// were reserved. On success the file is as long as was reserved.
    ///
    /// Fails where the entry point is missing, or where a section that is
    /// referred to by name has no address or no index.
    pub(crate) fn write(&self, w: &mut Writer<'_>, Ghost(p): Ghost<WriterModel>) -> (res: Result<
        (),
        LinkError,
    >)
        requires
            writer_model(*old(w)) == p,
            self.ready_to_write(p),
        ensures
            match self.image(p) {
                Ok(image) => res is Ok && writer_model(*final(w)).buffer == image,
                Err(e) => res is Err && res->Err_0@ == e,
            },
            res is Ok ==> writer_model(*final(w)).buffer.len() == p.reserved,
            res is Ok ==> writer_model(*final(w)).sink == p.sink,
            res is Ok ==> self.tables_stand(writer_model(*final(w)).buffer, p),
    {
        match self.write_front(w, Ghost(p)) {
            Err(e) => {
                return Err(e);
            },
            Ok(()) => {},
        }
        match self.write_tables(w, Ghost(p)) {
            Err(e) => {
                return Err(e);
            },
            Ok(()) => {},
        }
        let ghost b2 = writer_model(*w).buffer;
        if self.opt.shared || self.dynamic_link {
            let res = self.write_dynamic(w, Ghost(p));
            proof {
                if res is Ok {
                    self.lemma_tables_stay(p, b2, writer_model(*w).buffer);
                }
            }
            res
        } else {
            Ok(())
        }
    }

    /// The static tables stay where they stand when more is written behind
    /// them.
    pub proof fn lemma_tables_stay(&self, p: WriterModel, a: Seq<u8>, b: Seq<u8>)
        requires
            self.static_tables_stand(a, p),
            begins_with(b, a),
        ensures
            self.static_tables_stand(b, p),
    {
        if self.headers_part(p) is Ok {
            lemma_stands_on(a, b, p.section_offset, self.headers_part(p)->Ok_0);
        }
        if self.static_records() is Ok {
            let records = self.static_records()->Ok_0;
            lemma_stands_on(
                a,
                b,
                p.symtab_offset,
                zeros(24) + symbols_image(p.strtab, records, records.len() as int),
            );
        }
        lemma_stands_on(a, b, p.strtab_offset, p.strtab.data);
        lemma_stands_on(a, b, p.shstrtab_offset, p.shstrtab.data);
    }
}

} // verus!
