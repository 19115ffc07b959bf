//! The outside ELF writer, as far as the linker drives it: a model of its
//! state, and one function for each of its methods that the linker calls.

use crate::bytes::{le16, le32, le64, zeros};
use crate::model::Rel;
use object::write::elf::Writer;
use object::write::StringId;
use typed_arena::Arena;
use vstd::prelude::*;

verus! {

/// The outside writer. It borrows the buffer that it writes to.
#[verifier::external_type_specification]
#[verifier::external_body]
pub struct ExWriter<'a>(Writer<'a>);

/// The identifier that the outside writer hands out for a string added to one
/// of its string tables. Opaque: the writer alone reads it.
#[verifier::external_type_specification]
#[verifier::external_body]
pub struct ExStringId(StringId);

/// The outside arena, in which names are copied so that they outlive the
/// writer.
#[verifier::external_type_specification]
#[verifier::external_body]
#[verifier::reject_recursive_types(T)]
pub struct ExArena<T>(Arena<T>);

/// From this section index on, indices are reserved.
pub const SHN_LORESERVE: u32 = 0xff00;

/// One of the writer's string tables.
pub ghost struct StringTable {
    /// The strings added, each once, in the order in which they came.
    pub strings: Seq<Seq<u8>>,
    /// The offset of each string in `data`; empty until the table is laid
    /// out.
    pub offsets: Seq<nat>,
    /// The bytes of the table, once it is laid out.
    pub data: Seq<u8>,
}

/// What the linker's calls depend on in the state of the writer.
pub ghost struct WriterModel {
    /// The length of the file as reserved so far.
    pub reserved: nat,
    /// The bytes written so far.
    pub buffer: Seq<u8>,
    /// The bytes that the borrowed buffer holds once the writer is gone.
    pub sink: Seq<u8>,
    /// The length reserved when the file header was written: no more than
    /// this may be written.
    pub capacity: nat,
    pub segment_offset: nat,
    pub segment_num: nat,
    pub section_offset: nat,
    pub section_num: nat,
    pub shstrtab: StringTable,
    pub shstrtab_index: nat,
    pub shstrtab_offset: nat,
    pub need_strtab: bool,
    pub strtab: StringTable,
    pub strtab_index: nat,
    pub strtab_offset: nat,
    pub symtab_index: nat,
    pub symtab_offset: nat,
    pub symtab_num: nat,
    pub need_dynstr: bool,
    pub dynstr: StringTable,
    pub dynstr_index: nat,
    pub dynstr_offset: nat,
    pub dynsym_index: nat,
    pub dynsym_offset: nat,
    pub dynsym_num: nat,
    /// The section index of `.dynamic` is reserved.
    pub dynamic_named: bool,
    pub dynamic_offset: nat,
    pub dynamic_num: nat,
    /// The section index of `.hash` is reserved.
    pub hash_named: bool,
    pub hash_offset: nat,
    pub hash_size: nat,
    /// The section index of `.gnu.hash` is reserved.
    pub gnu_hash_named: bool,
    pub gnu_hash_offset: nat,
    pub gnu_hash_size: nat,
}

/// The state of a writer.
pub uninterp spec fn writer_model(w: Writer<'_>) -> WriterModel;

/// The number that a string identifier stands for: the index of its string
/// among the strings of its table.
pub uninterp spec fn string_id_index(id: StringId) -> nat;

/// The bytes that the writer lays a string table out as, behind the leading
/// zero byte: the strings, each ended by a zero byte, a string that is the
/// end of another one sharing its bytes.
pub uninterp spec fn string_table_data(strings: Seq<Seq<u8>>) -> Seq<u8>;

/// The offsets that the writer gives the strings of a table when it lays the
/// table out.
pub uninterp spec fn string_table_offsets(strings: Seq<Seq<u8>>) -> Seq<nat>;

/// The bytes of a System V hash table with the given numbers of buckets and
/// chain entries, behind its header, `hashes` holding the hash of each symbol
/// that has one.
pub uninterp spec fn hash_table_body(buckets: u32, chains: u32, hashes: Seq<Option<u32>>) -> Seq<
    u8,
>;

/// The bytes of a GNU hash table behind its header: Bloom filter, buckets
/// and hash values.
pub uninterp spec fn gnu_hash_table_body(
    symbol_base: u32,
    bloom_shift: u32,
    bloom_count: u32,
    buckets: u32,
    hashes: Seq<u32>,
) -> Seq<u8>;

/// The least multiple of `align` that is not below `x`.
pub open spec fn align_up(x: nat, align: nat) -> nat {
    if align <= 1 || x % align == 0 {
        x
    } else {
        (x + align - x % align) as nat
    }
}

/// An alignment that the linker asks for.
pub open spec fn is_alignment(align: nat) -> bool {
    align == 1 || align == 4 || align == 8 || align == 4096
}

/// A table to which `name` can be added: it is not laid out, and the name
/// holds no zero byte.
pub open spec fn can_add(t: StringTable, name: Seq<u8>) -> bool {
    t.offsets.len() == 0 && !name.contains(0u8)
}

/// The table with `name` added, unless it holds it already.
pub open spec fn with_string(t: StringTable, name: Seq<u8>) -> StringTable {
    if t.strings.contains(name) {
        t
    } else {
        StringTable { strings: t.strings.push(name), ..t }
    }
}

/// The table, laid out.
pub open spec fn laid_out(t: StringTable) -> StringTable {
    StringTable {
        offsets: string_table_offsets(t.strings),
        data: seq![0u8] + string_table_data(t.strings),
        ..t
    }
}

/// The bytes `data` hold the string `s` at `offset`, ended by a zero byte.
pub open spec fn holds_at(data: Seq<u8>, offset: nat, s: Seq<u8>) -> bool {
    &&& offset + s.len() < data.len()
    &&& data.subrange(offset as int, (offset + s.len()) as int) == s
    &&& data[(offset + s.len()) as int] == 0
}

/// Every string of the table has its offset, and at that offset the bytes of
/// the table hold the string, ended by a zero byte.
pub open spec fn is_laid_out(t: StringTable) -> bool {
    &&& t.offsets.len() == t.strings.len()
    &&& forall|i: int|
        0 <= i < t.strings.len() ==> holds_at(t.data, t.offsets[i], #[trigger] t.strings[i])
}

/// The identifier, where there is one, stands for a string of the table that
/// has its offset.
pub open spec fn has_offset(t: StringTable, id: Option<StringId>) -> bool {
    match id {
        Some(i) => string_id_index(i) < t.offsets.len(),
        None => true,
    }
}

/// The offset of the string that the identifier stands for; 0 for none.
pub open spec fn offset_of(t: StringTable, id: Option<StringId>) -> nat {
    match id {
        Some(i) => t.offsets[string_id_index(i) as int],
        None => 0,
    }
}

/// The offset of the string `name` of the table.
pub open spec fn offset_of_name(t: StringTable, name: Seq<u8>) -> nat {
    t.offsets[t.strings.index_of(name)]
}

/// The state with `bytes` written.
pub open spec fn written(m: WriterModel, bytes: Seq<u8>) -> WriterModel {
    WriterModel { buffer: m.buffer + bytes, ..m }
}

/// The bytes written so far, padded with zeros to a multiple of `align`.
pub open spec fn padded(buffer: Seq<u8>, align: nat) -> Seq<u8> {
    buffer + zeros((align_up(buffer.len(), align) - buffer.len()) as nat)
}

/// The state with the section name `name` added and one more section index
/// reserved.
pub open spec fn with_named_section(m: WriterModel, name: Seq<u8>) -> WriterModel {
    WriterModel {
        shstrtab: with_string(m.shstrtab, name),
        section_num: next_section_index(m) + 1,
        ..m
    }
}

/// The section index that is reserved next.
pub open spec fn next_section_index(m: WriterModel) -> nat {
    if m.section_num == 0 {
        1
    } else {
        m.section_num
    }
}

/// Whether a named section index can be reserved: the section headers are
/// not reserved yet, the name can be added, and the index fits.
pub open spec fn can_name_section(m: WriterModel, name: Seq<u8>) -> bool {
    &&& m.section_offset == 0
    &&& m.shstrtab_offset == 0
    &&& can_add(m.shstrtab, name)
    &&& m.section_num < u32::MAX
}

/// The fields of the file header that the caller chooses.
#[derive(Debug, Copy, Clone)]
pub struct FileHeader {
    pub os_abi: u8,
    pub abi_version: u8,
    pub e_type: u16,
    pub e_machine: u16,
    pub e_entry: u64,
    pub e_flags: u32,
}

/// A program header.
#[derive(Debug, Copy, Clone)]
pub struct ProgramHeader {
    pub p_type: u32,
    pub p_flags: u32,
    pub p_offset: u64,
    pub p_vaddr: u64,
    pub p_paddr: u64,
    pub p_filesz: u64,
    pub p_memsz: u64,
    pub p_align: u64,
}

/// A section header.
#[derive(Debug, Copy, Clone)]
pub struct SectionHeader {
    pub name: Option<StringId>,
    pub sh_type: u32,
    pub sh_flags: u64,
    pub sh_addr: u64,
    pub sh_offset: u64,
    pub sh_size: u64,
    pub sh_link: u32,
    pub sh_info: u32,
    pub sh_addralign: u64,
    pub sh_entsize: u64,
}

/// A symbol of `.symtab` or `.dynsym`.
#[derive(Debug, Copy, Clone)]
pub struct Sym {
    pub name: Option<StringId>,
    /// The index of its section; `None` takes `st_shndx` instead.
    pub section: Option<u32>,
    pub st_info: u8,
    pub st_other: u8,
    pub st_shndx: u16,
    pub st_value: u64,
    pub st_size: u64,
}

/// The bytes of the ELF-64 file header, little-endian.
pub open spec fn file_header_bytes(h: FileHeader, m: WriterModel) -> Seq<u8> {
    seq![0x7fu8, 0x45, 0x4c, 0x46, 2, 1, 1, h.os_abi, h.abi_version, 0, 0, 0, 0, 0, 0, 0] + le16(
        h.e_type,
    ) + le16(h.e_machine) + le32(1) + le64(h.e_entry) + le64(m.segment_offset as u64) + le64(
        m.section_offset as u64,
    ) + le32(h.e_flags) + le16(64) + le16(
        if m.segment_num == 0 {
            0
        } else {
            56
        },
    ) + le16(m.segment_num as u16) + le16(
        if m.section_num == 0 {
            0
        } else {
            64
        },
    ) + le16(m.section_num as u16) + le16(m.shstrtab_index as u16)
}

/// The bytes of an ELF-64 program header.
pub open spec fn program_header_bytes(h: ProgramHeader) -> Seq<u8> {
    le32(h.p_type) + le32(h.p_flags) + le64(h.p_offset) + le64(h.p_vaddr) + le64(h.p_paddr) + le64(
        h.p_filesz,
    ) + le64(h.p_memsz) + le64(h.p_align)
}

/// The bytes of an ELF-64 section header whose name stands at `name` in
/// `.shstrtab`.
pub open spec fn section_header_bytes(name: nat, h: SectionHeader) -> Seq<u8> {
    le32(name as u32) + le32(h.sh_type) + le64(h.sh_flags) + le64(h.sh_addr) + le64(h.sh_offset)
        + le64(h.sh_size) + le32(h.sh_link) + le32(h.sh_info) + le64(h.sh_addralign) + le64(
        h.sh_entsize,
    )
}

/// A section header that the writer fills in by itself.
pub open spec fn own_header(
    sh_type: u32,
    sh_flags: u64,
    sh_addr: u64,
    sh_offset: nat,
    sh_size: nat,
    sh_link: nat,
    sh_info: u32,
    sh_addralign: u64,
    sh_entsize: u64,
) -> SectionHeader {
    SectionHeader {
        name: None,
        sh_type,
        sh_flags,
        sh_addr,
        sh_offset: sh_offset as u64,
        sh_size: sh_size as u64,
        sh_link: sh_link as u32,
        sh_info,
        sh_addralign,
        sh_entsize,
    }
}

/// The section index that a symbol is written with.
pub open spec fn symbol_shndx(s: Sym) -> u16 {
    match s.section {
        Some(index) => index as u16,
        None => s.st_shndx,
    }
}

/// The bytes of an ELF-64 symbol whose name stands at `name` in its string
/// table.
pub open spec fn symbol_bytes(name: nat, s: Sym) -> Seq<u8> {
    le32(name as u32) + seq![s.st_info, s.st_other] + le16(symbol_shndx(s)) + le64(s.st_value)
        + le64(s.st_size)
}

/// The bytes of an ELF-64 dynamic entry.
pub open spec fn dynamic_bytes(tag: u32, value: u64) -> Seq<u8> {
    le64(tag as u64) + le64(value)
}

/// The bytes of an ELF-64 relocation with addend.
pub open spec fn rela_bytes(r: Rel) -> Seq<u8> {
    le64(r.r_offset) + le64(((r.r_sym as u64) << 32) | (r.r_type as u64)) + le64(
        r.r_addend as u64,
    )
}

/// The header of a System V hash table.
pub open spec fn hash_header(buckets: u32, chains: u32) -> Seq<u8> {
    le32(buckets) + le32(chains)
}

/// The header of a GNU hash table.
pub open spec fn gnu_hash_header(
    buckets: u32,
    symbol_base: u32,
    bloom_count: u32,
    bloom_shift: u32,
) -> Seq<u8> {
    le32(buckets) + le32(symbol_base) + le32(bloom_count) + le32(bloom_shift)
}

/// Makes an arena. Calls `typed_arena::Arena::new`.
#[verifier::external_body]
pub(crate) fn arena_new() -> Arena<u8> {
    Arena::new()
}

/// Copies a string into the arena and hands out the bytes of the copy. Calls
/// `typed_arena::Arena::alloc_str`, which returns the copy.
#[verifier::external_body]
pub(crate) fn arena_alloc<'a>(arena: &'a Arena<u8>, s: &str) -> (bytes: &'a [u8])
    ensures
        bytes@ == crate::hash::name_bytes(s@),
{
    arena.alloc_str(s).as_bytes()
}

/// Makes a writer of little-endian ELF-64 over `buffer`. Calls
/// `Writer::new`, which reserves and writes nothing. What the buffer holds in
/// the end is what the writer's `sink` says.
#[verifier::external_body]
pub(crate) fn writer_new<'a>(buffer: &'a mut Vec<u8>) -> (w: Writer<'a>)
    ensures
        writer_model(w) == (WriterModel {
            sink: final(buffer)@,
            buffer: old(buffer)@,
            ..WriterModel::fresh()
        }),
{
    Writer::new(object::Endianness::Little, true, buffer)
}

/// Ends the writer's borrow of its buffer and returns the number of bytes
/// written. Calls `Writer::len`, the length of the buffer. The buffer then
/// holds the bytes that were written.
#[verifier::external_body]
pub(crate) fn writer_finish(w: Writer<'_>) -> (len: usize)
    ensures
        len == writer_model(w).buffer.len(),
        writer_model(w).sink == writer_model(w).buffer.subrange(0, len as int),
{
    w.len()
}

/// Calls `Writer::reserved_len`: the length reserved so far.
#[verifier::external_body]
pub(crate) fn reserved_len(w: &Writer<'_>) -> (len: usize)
    ensures
        len == writer_model(*w).reserved,
{
    w.reserved_len()
}

/// Calls `Writer::reserve`: aligns the reserved length to `align`, reserves
/// `len` bytes from there and returns where they start. The writer adds the
/// alignment before it rounds down, so that much room must be left.
#[verifier::external_body]
pub(crate) fn reserve(w: &mut Writer<'_>, len: usize, align: usize) -> (offset: usize)
    requires
        is_alignment(align as nat),
        writer_model(*old(w)).reserved + align + len <= usize::MAX,
    ensures
        offset == align_up(writer_model(*old(w)).reserved, align as nat),
        writer_model(*final(w)) == (WriterModel {
            reserved: offset as nat + len as nat,
            ..writer_model(*old(w))
        }),
{
    w.reserve(len, align)
}

/// Calls `Writer::reserve_file_header`: reserves the 64 bytes of the file
/// header at the start of the file.
#[verifier::external_body]
pub(crate) fn reserve_file_header(w: &mut Writer<'_>)
    requires
        writer_model(*old(w)).reserved == 0,
    ensures
        writer_model(*final(w)) == (WriterModel { reserved: 64, ..writer_model(*old(w)) }),
{
    w.reserve_file_header()
}

/// Calls `Writer::reserve_program_headers`: for a count other than 0, records
/// the count and reserves 56 bytes for each header, aligned to 8.
#[verifier::external_body]
pub(crate) fn reserve_program_headers(w: &mut Writer<'_>, num: u32)
    requires
        writer_model(*old(w)).segment_offset == 0,
        writer_model(*old(w)).reserved + 8 + num * 56 <= usize::MAX,
    ensures
        num == 0 ==> writer_model(*final(w)) == writer_model(*old(w)),
        num != 0 ==> writer_model(*final(w)) == (WriterModel {
            segment_num: num as nat,
            segment_offset: align_up(writer_model(*old(w)).reserved, 8),
            reserved: align_up(writer_model(*old(w)).reserved, 8) + (num * 56) as nat,
            ..writer_model(*old(w))
        }),
{
    w.reserve_program_headers(num)
}

/// Calls `Writer::reserve_null_section_index`: reserves section index 0.
#[verifier::external_body]
pub(crate) fn reserve_null_section_index(w: &mut Writer<'_>)
    requires
        writer_model(*old(w)).section_num == 0,
    ensures
        writer_model(*final(w)) == (WriterModel { section_num: 1, ..writer_model(*old(w)) }),
{
    w.reserve_null_section_index();
}

/// Calls `Writer::add_section_name`: adds a name to `.shstrtab` and returns
/// its identifier.
#[verifier::external_body]
pub(crate) fn add_section_name<'a>(w: &mut Writer<'a>, name: &'a [u8]) -> (id: StringId)
    requires
        writer_model(*old(w)).shstrtab_offset == 0,
        can_add(writer_model(*old(w)).shstrtab, name@),
    ensures
        writer_model(*final(w)) == (WriterModel {
            shstrtab: with_string(writer_model(*old(w)).shstrtab, name@),
            ..writer_model(*old(w))
        }),
        string_id_index(id) < writer_model(*final(w)).shstrtab.strings.len(),
        writer_model(*final(w)).shstrtab.strings[string_id_index(id) as int] == name@,
{
    w.add_section_name(name)
}

/// Calls `Writer::reserve_section_index`: reserves the next section index,
/// which is 1 where none was reserved before, and returns it.
#[verifier::external_body]
pub(crate) fn reserve_section_index(w: &mut Writer<'_>) -> (index: u32)
    requires
        writer_model(*old(w)).section_offset == 0,
        writer_model(*old(w)).section_num < u32::MAX,
    ensures
        index == next_section_index(writer_model(*old(w))),
        writer_model(*final(w)) == (WriterModel {
            section_num: index as nat + 1,
            ..writer_model(*old(w))
        }),
{
    w.reserve_section_index().0
}

/// Calls `Writer::reserve_symtab_section_index`: names a section `.symtab`,
/// reserves the next section index for it, records and returns the index.
#[verifier::external_body]
pub(crate) fn reserve_symtab_section_index(w: &mut Writer<'_>) -> (index: u32)
    requires
        writer_model(*old(w)).symtab_index == 0,
        can_name_section(writer_model(*old(w)), seq![0x2eu8, 0x73, 0x79, 0x6d, 0x74, 0x61, 0x62]),
    ensures
        index == next_section_index(writer_model(*old(w))),
        writer_model(*final(w)) == (WriterModel {
            symtab_index: index as nat,
            ..with_named_section(
                writer_model(*old(w)),
                seq![0x2eu8, 0x73, 0x79, 0x6d, 0x74, 0x61, 0x62],
            )
        }),
{
    w.reserve_symtab_section_index().0
}

/// Calls `Writer::reserve_strtab_section_index`: names a section `.strtab`,
/// reserves the next section index for it, records and returns the index.
#[verifier::external_body]
pub(crate) fn reserve_strtab_section_index(w: &mut Writer<'_>) -> (index: u32)
    requires
        writer_model(*old(w)).strtab_index == 0,
        can_name_section(writer_model(*old(w)), seq![0x2eu8, 0x73, 0x74, 0x72, 0x74, 0x61, 0x62]),
    ensures
        index == next_section_index(writer_model(*old(w))),
        writer_model(*final(w)) == (WriterModel {
            strtab_index: index as nat,
            ..with_named_section(
                writer_model(*old(w)),
                seq![0x2eu8, 0x73, 0x74, 0x72, 0x74, 0x61, 0x62],
            )
        }),
{
    w.reserve_strtab_section_index().0
}

/// Calls `Writer::reserve_shstrtab_section_index`: names a section
/// `.shstrtab`, reserves the next section index for it, records and returns
/// the index.
#[verifier::external_body]
pub(crate) fn reserve_shstrtab_section_index(w: &mut Writer<'_>) -> (index: u32)
    requires
        writer_model(*old(w)).shstrtab_index == 0,
        can_name_section(
            writer_model(*old(w)),
            seq![0x2eu8, 0x73, 0x68, 0x73, 0x74, 0x72, 0x74, 0x61, 0x62],
        ),
    ensures
        index == next_section_index(writer_model(*old(w))),
        writer_model(*final(w)) == (WriterModel {
            shstrtab_index: index as nat,
            ..with_named_section(
                writer_model(*old(w)),
                seq![0x2eu8, 0x73, 0x68, 0x73, 0x74, 0x72, 0x74, 0x61, 0x62],
            )
        }),
{
    w.reserve_shstrtab_section_index().0
}

/// Calls `Writer::reserve_dynamic_section_index`: names a section
/// `.dynamic`, reserves the next section index for it and returns the index.
#[verifier::external_body]
pub(crate) fn reserve_dynamic_section_index(w: &mut Writer<'_>) -> (index: u32)
    requires
        !writer_model(*old(w)).dynamic_named,
        can_name_section(
            writer_model(*old(w)),
            seq![0x2eu8, 0x64, 0x79, 0x6e, 0x61, 0x6d, 0x69, 0x63],
        ),
    ensures
        index == next_section_index(writer_model(*old(w))),
        writer_model(*final(w)) == (WriterModel {
            dynamic_named: true,
            ..with_named_section(
                writer_model(*old(w)),
                seq![0x2eu8, 0x64, 0x79, 0x6e, 0x61, 0x6d, 0x69, 0x63],
            )
        }),
{
    w.reserve_dynamic_section_index().0
}

/// Calls `Writer::reserve_dynsym_section_index`: names a section `.dynsym`,
/// reserves the next section index for it, records and returns the index.
#[verifier::external_body]
pub(crate) fn reserve_dynsym_section_index(w: &mut Writer<'_>) -> (index: u32)
    requires
        writer_model(*old(w)).dynsym_index == 0,
        can_name_section(writer_model(*old(w)), seq![0x2eu8, 0x64, 0x79, 0x6e, 0x73, 0x79, 0x6d]),
    ensures
        index == next_section_index(writer_model(*old(w))),
        writer_model(*final(w)) == (WriterModel {
            dynsym_index: index as nat,
            ..with_named_section(
                writer_model(*old(w)),
                seq![0x2eu8, 0x64, 0x79, 0x6e, 0x73, 0x79, 0x6d],
            )
        }),
{
    w.reserve_dynsym_section_index().0
}

/// Calls `Writer::reserve_dynstr_section_index`: names a section `.dynstr`,
/// reserves the next section index for it, records and returns the index.
#[verifier::external_body]
pub(crate) fn reserve_dynstr_section_index(w: &mut Writer<'_>) -> (index: u32)
    requires
        writer_model(*old(w)).dynstr_index == 0,
        can_name_section(writer_model(*old(w)), seq![0x2eu8, 0x64, 0x79, 0x6e, 0x73, 0x74, 0x72]),
    ensures
        index == next_section_index(writer_model(*old(w))),
        writer_model(*final(w)) == (WriterModel {
            dynstr_index: index as nat,
            ..with_named_section(
                writer_model(*old(w)),
                seq![0x2eu8, 0x64, 0x79, 0x6e, 0x73, 0x74, 0x72],
            )
        }),
{
    w.reserve_dynstr_section_index().0
}

/// Calls `Writer::reserve_hash_section_index`: names a section `.hash`,
/// reserves the next section index for it and returns the index.
#[verifier::external_body]
pub(crate) fn reserve_hash_section_index(w: &mut Writer<'_>) -> (index: u32)
    requires
        !writer_model(*old(w)).hash_named,
        can_name_section(writer_model(*old(w)), seq![0x2eu8, 0x68, 0x61, 0x73, 0x68]),
    ensures
        index == next_section_index(writer_model(*old(w))),
        writer_model(*final(w)) == (WriterModel {
            hash_named: true,
            ..with_named_section(writer_model(*old(w)), seq![0x2eu8, 0x68, 0x61, 0x73, 0x68])
        }),
{
    w.reserve_hash_section_index().0
}

/// Calls `Writer::reserve_gnu_hash_section_index`: names a section
/// `.gnu.hash`, reserves the next section index for it and returns the index.
/// The GNU hash table goes by that name, with a dot, in the output: it is
/// the name that the writer gives it and that loaders and tools look for.
#[verifier::external_body]
pub(crate) fn reserve_gnu_hash_section_index(w: &mut Writer<'_>) -> (index: u32)
    requires
        !writer_model(*old(w)).gnu_hash_named,
        can_name_section(
            writer_model(*old(w)),
            seq![0x2eu8, 0x67, 0x6e, 0x75, 0x2e, 0x68, 0x61, 0x73, 0x68],
        ),
    ensures
        index == next_section_index(writer_model(*old(w))),
        writer_model(*final(w)) == (WriterModel {
            gnu_hash_named: true,
            ..with_named_section(
                writer_model(*old(w)),
                seq![0x2eu8, 0x67, 0x6e, 0x75, 0x2e, 0x68, 0x61, 0x73, 0x68],
            )
        }),
{
    w.reserve_gnu_hash_section_index().0
}

/// Calls `Writer::reserve_section_headers`: where section indices are
/// reserved, reserves 64 bytes for each, aligned to 8.
#[verifier::external_body]
pub(crate) fn reserve_section_headers(w: &mut Writer<'_>)
    requires
        writer_model(*old(w)).section_offset == 0,
        writer_model(*old(w)).reserved + 8 + writer_model(*old(w)).section_num * 64
            <= usize::MAX,
    ensures
        writer_model(*old(w)).section_num == 0 ==> writer_model(*final(w)) == writer_model(
            *old(w),
        ),
        writer_model(*old(w)).section_num != 0 ==> writer_model(*final(w)) == (WriterModel {
            section_offset: align_up(writer_model(*old(w)).reserved, 8),
            reserved: align_up(writer_model(*old(w)).reserved, 8) + writer_model(
                *old(w),
            ).section_num * 64,
            ..writer_model(*old(w))
        }),
{
    w.reserve_section_headers()
}

/// Calls `Writer::reserve_null_symbol_index`: reserves symbol index 0, and
/// with it asks for `.strtab`.
#[verifier::external_body]
pub(crate) fn reserve_null_symbol_index(w: &mut Writer<'_>)
    requires
        writer_model(*old(w)).symtab_offset == 0,
        writer_model(*old(w)).symtab_num == 0,
    ensures
        writer_model(*final(w)) == (WriterModel {
            symtab_num: 1,
            need_strtab: true,
            ..writer_model(*old(w))
        }),
{
    w.reserve_null_symbol_index();
}

/// Calls `Writer::add_string`: adds a name to `.strtab` and returns its
/// identifier.
#[verifier::external_body]
pub(crate) fn add_string<'a>(w: &mut Writer<'a>, name: &'a [u8]) -> (id: StringId)
    requires
        writer_model(*old(w)).strtab_offset == 0,
        can_add(writer_model(*old(w)).strtab, name@),
    ensures
        writer_model(*final(w)) == (WriterModel {
            need_strtab: true,
            strtab: with_string(writer_model(*old(w)).strtab, name@),
            ..writer_model(*old(w))
        }),
        string_id_index(id) < writer_model(*final(w)).strtab.strings.len(),
        writer_model(*final(w)).strtab.strings[string_id_index(id) as int] == name@,
{
    w.add_string(name)
}

/// Calls `Writer::reserve_symbol_index` for a symbol of no section or of a
/// section below the reserved indices: reserves the next symbol index. The
/// writer's table of extended section indices stays unused.
#[verifier::external_body]
pub(crate) fn reserve_symbol_index(w: &mut Writer<'_>, section: Option<u32>) -> (index: u32)
    requires
        writer_model(*old(w)).symtab_offset == 0,
        writer_model(*old(w)).symtab_num < u32::MAX,
        section is Some ==> section->Some_0 < SHN_LORESERVE,
    ensures
        index == (if writer_model(*old(w)).symtab_num == 0 {
            1
        } else {
            writer_model(*old(w)).symtab_num
        }),
        writer_model(*final(w)) == (WriterModel {
            symtab_num: index as nat + 1,
            need_strtab: writer_model(*old(w)).need_strtab || writer_model(*old(w)).symtab_num
                == 0,
            ..writer_model(*old(w))
        }),
{
    w.reserve_symbol_index(section.map(object::write::elf::SectionIndex)).0
}

/// Calls `Writer::reserve_symtab`: where symbols are reserved, reserves
/// 24 bytes for each, aligned to 8.
#[verifier::external_body]
pub(crate) fn reserve_symtab(w: &mut Writer<'_>)
    requires
        writer_model(*old(w)).symtab_offset == 0,
        writer_model(*old(w)).reserved + 8 + writer_model(*old(w)).symtab_num * 24
            <= usize::MAX,
    ensures
        writer_model(*old(w)).symtab_num == 0 ==> writer_model(*final(w)) == writer_model(
            *old(w),
        ),
        writer_model(*old(w)).symtab_num != 0 ==> writer_model(*final(w)) == (WriterModel {
            symtab_offset: align_up(writer_model(*old(w)).reserved, 8),
            reserved: align_up(writer_model(*old(w)).reserved, 8) + writer_model(
                *old(w),
            ).symtab_num * 24,
            ..writer_model(*old(w))
        }),
{
    w.reserve_symtab()
}

/// Calls `Writer::reserve_strtab`: where `.strtab` is asked for, lays the
/// table out and reserves its bytes. Laid out, the table holds each of its
/// strings at the string's offset, ended by a zero byte; a string that is the
/// end of another shares its bytes, and the empty string stands at a zero
/// byte. The table is held in a vector, so it is
/// shorter than half the address space, and the reserved length cannot
/// overflow while it is no longer than that itself.
#[verifier::external_body]
pub(crate) fn reserve_strtab(w: &mut Writer<'_>)
    requires
        writer_model(*old(w)).strtab_offset == 0,
        writer_model(*old(w)).strtab.offsets.len() == 0,
        2 * writer_model(*old(w)).reserved <= usize::MAX,
    ensures
        !writer_model(*old(w)).need_strtab ==> writer_model(*final(w)) == writer_model(*old(w)),
        writer_model(*old(w)).need_strtab ==> writer_model(*final(w)) == (WriterModel {
            strtab: StringTable {
                offsets: string_table_offsets(writer_model(*old(w)).strtab.strings),
                data: seq![0u8] + string_table_data(writer_model(*old(w)).strtab.strings),
                ..writer_model(*old(w)).strtab
            },
            strtab_offset: writer_model(*old(w)).reserved,
            reserved: writer_model(*old(w)).reserved + laid_out(
                writer_model(*old(w)).strtab,
            ).data.len(),
            ..writer_model(*old(w))
        }) && is_laid_out(writer_model(*final(w)).strtab),
{
    w.reserve_strtab()
}

/// Calls `Writer::reserve_shstrtab`: where section indices are reserved, lays
/// `.shstrtab` out and reserves its bytes. Laid out, the table holds each of
/// its strings at the string's offset, ended by a zero byte. The table is
/// held in a vector, so
/// the reserved length cannot overflow while it is no longer than half the
/// address space.
#[verifier::external_body]
pub(crate) fn reserve_shstrtab(w: &mut Writer<'_>)
    requires
        writer_model(*old(w)).shstrtab_offset == 0,
        writer_model(*old(w)).shstrtab.offsets.len() == 0,
        2 * writer_model(*old(w)).reserved <= usize::MAX,
    ensures
        writer_model(*old(w)).section_num == 0 ==> writer_model(*final(w)) == writer_model(
            *old(w),
        ),
        writer_model(*old(w)).section_num != 0 ==> writer_model(*final(w)) == (WriterModel {
            shstrtab: StringTable {
                offsets: string_table_offsets(writer_model(*old(w)).shstrtab.strings),
                data: seq![0u8] + string_table_data(writer_model(*old(w)).shstrtab.strings),
                ..writer_model(*old(w)).shstrtab
            },
            shstrtab_offset: writer_model(*old(w)).reserved,
            reserved: writer_model(*old(w)).reserved + laid_out(
                writer_model(*old(w)).shstrtab,
            ).data.len(),
            ..writer_model(*old(w))
        }) && is_laid_out(writer_model(*final(w)).shstrtab),
{
    w.reserve_shstrtab()
}

/// Calls `Writer::reserve_dynamic`: for a count other than 0, records the
/// count, reserves 16 bytes for each entry, aligned to 8, and returns where
/// they start; 0 for no entry.
#[verifier::external_body]
pub(crate) fn reserve_dynamic(w: &mut Writer<'_>, num: usize) -> (offset: usize)
    requires
        writer_model(*old(w)).dynamic_offset == 0,
        writer_model(*old(w)).reserved + 8 + num * 16 <= usize::MAX,
    ensures
        num == 0 ==> offset == 0 && writer_model(*final(w)) == writer_model(*old(w)),
        num != 0 ==> offset == align_up(writer_model(*old(w)).reserved, 8) && writer_model(
            *final(w),
        ) == (WriterModel {
            dynamic_num: num as nat,
            dynamic_offset: offset as nat,
            reserved: offset as nat + (num * 16) as nat,
            ..writer_model(*old(w))
        }),
{
    w.reserve_dynamic(num)
}

/// Calls `Writer::reserve_null_dynamic_symbol_index`: reserves dynamic symbol
/// index 0, and nothing else.
#[verifier::external_body]
pub(crate) fn reserve_null_dynamic_symbol_index(w: &mut Writer<'_>)
    requires
        writer_model(*old(w)).dynsym_offset == 0,
        writer_model(*old(w)).dynsym_num == 0,
    ensures
        writer_model(*final(w)) == (WriterModel { dynsym_num: 1, ..writer_model(*old(w)) }),
{
    w.reserve_null_dynamic_symbol_index();
}

/// Calls `Writer::require_dynstr`: asks for `.dynstr` whether or not a string
/// is added to it.
#[verifier::external_body]
pub(crate) fn require_dynstr(w: &mut Writer<'_>)
    ensures
        writer_model(*final(w)) == (WriterModel { need_dynstr: true, ..writer_model(*old(w)) }),
{
    w.require_dynstr()
}

/// Calls `Writer::add_dynamic_string`: adds a name to `.dynstr` and returns
/// its identifier.
#[verifier::external_body]
pub(crate) fn add_dynamic_string<'a>(w: &mut Writer<'a>, name: &'a [u8]) -> (id: StringId)
    requires
        writer_model(*old(w)).dynstr_offset == 0,
        can_add(writer_model(*old(w)).dynstr, name@),
    ensures
        writer_model(*final(w)) == (WriterModel {
            need_dynstr: true,
            dynstr: with_string(writer_model(*old(w)).dynstr, name@),
            ..writer_model(*old(w))
        }),
        string_id_index(id) < writer_model(*final(w)).dynstr.strings.len(),
        writer_model(*final(w)).dynstr.strings[string_id_index(id) as int] == name@,
{
    w.add_dynamic_string(name)
}

/// Calls `Writer::reserve_dynamic_symbol_index`: reserves the next dynamic
/// symbol index.
#[verifier::external_body]
pub(crate) fn reserve_dynamic_symbol_index(w: &mut Writer<'_>) -> (index: u32)
    requires
        writer_model(*old(w)).dynsym_offset == 0,
        writer_model(*old(w)).dynsym_num < u32::MAX,
    ensures
        index == (if writer_model(*old(w)).dynsym_num == 0 {
            1
        } else {
            writer_model(*old(w)).dynsym_num
        }),
        writer_model(*final(w)) == (WriterModel {
            dynsym_num: index as nat + 1,
            ..writer_model(*old(w))
        }),
{
    w.reserve_dynamic_symbol_index().0
}

/// Calls `Writer::reserve_dynsym`: where dynamic symbols are reserved,
/// reserves 24 bytes for each, aligned to 8, and returns where they start; 0
/// where none is reserved.
#[verifier::external_body]
pub(crate) fn reserve_dynsym(w: &mut Writer<'_>) -> (offset: usize)
    requires
        writer_model(*old(w)).dynsym_offset == 0,
        writer_model(*old(w)).reserved + 8 + writer_model(*old(w)).dynsym_num * 24
            <= usize::MAX,
    ensures
        writer_model(*old(w)).dynsym_num == 0 ==> offset == 0 && writer_model(*final(w))
            == writer_model(*old(w)),
        writer_model(*old(w)).dynsym_num != 0 ==> offset == align_up(
            writer_model(*old(w)).reserved,
            8,
        ) && writer_model(*final(w)) == (WriterModel {
            dynsym_offset: offset as nat,
            reserved: offset as nat + writer_model(*old(w)).dynsym_num * 24,
            ..writer_model(*old(w))
        }),
{
    w.reserve_dynsym()
}

/// Calls `Writer::reserve_dynstr`: where `.dynstr` is asked for, lays the
/// table out, reserves its bytes and returns where they start; 0 where it is
/// not asked for. Laid out, the table holds each of its strings at the
/// string's offset, ended by a zero byte. The table is held in a vector, so
/// the reserved length
/// cannot overflow while it is no longer than half the address space.
#[verifier::external_body]
pub(crate) fn reserve_dynstr(w: &mut Writer<'_>) -> (offset: usize)
    requires
        writer_model(*old(w)).dynstr_offset == 0,
        writer_model(*old(w)).dynstr.offsets.len() == 0,
        2 * writer_model(*old(w)).reserved <= usize::MAX,
    ensures
        !writer_model(*old(w)).need_dynstr ==> offset == 0 && writer_model(*final(w))
            == writer_model(*old(w)),
        writer_model(*old(w)).need_dynstr ==> offset == writer_model(*old(w)).reserved
            && writer_model(*final(w)) == (WriterModel {
            dynstr: StringTable {
                offsets: string_table_offsets(writer_model(*old(w)).dynstr.strings),
                data: seq![0u8] + string_table_data(writer_model(*old(w)).dynstr.strings),
                ..writer_model(*old(w)).dynstr
            },
            dynstr_offset: offset as nat,
            reserved: offset as nat + laid_out(writer_model(*old(w)).dynstr).data.len(),
            ..writer_model(*old(w))
        }) && is_laid_out(writer_model(*final(w)).dynstr),
{
    w.reserve_dynstr()
}

/// Calls `Writer::reserve_hash`: reserves a System V hash table of 8 bytes
/// and 4 for each bucket and chain entry, aligned to 4, and returns where it
/// starts.
#[verifier::external_body]
pub(crate) fn reserve_hash(w: &mut Writer<'_>, buckets: u32, chains: u32) -> (offset: usize)
    requires
        writer_model(*old(w)).reserved + 4 + 8 + 4 * buckets + 4 * chains <= usize::MAX,
    ensures
        offset == align_up(writer_model(*old(w)).reserved, 4),
        writer_model(*final(w)) == (WriterModel {
            hash_size: (8 + 4 * buckets + 4 * chains) as nat,
            hash_offset: offset as nat,
            reserved: (offset + 8 + 4 * buckets + 4 * chains) as nat,
            ..writer_model(*old(w))
        }),
{
    w.reserve_hash(buckets, chains)
}

/// Calls `Writer::reserve_gnu_hash`: reserves a GNU hash table of 16 bytes,
/// 8 for each Bloom word and 4 for each bucket and symbol, aligned to 8, and
/// returns where it starts.
#[verifier::external_body]
pub(crate) fn reserve_gnu_hash(w: &mut Writer<'_>, blooms: u32, buckets: u32, symbols: u32) -> (offset:
    usize)
    requires
        writer_model(*old(w)).reserved + 8 + 16 + 8 * blooms + 4 * buckets + 4 * symbols
            <= usize::MAX,
    ensures
        offset == align_up(writer_model(*old(w)).reserved, 8),
        writer_model(*final(w)) == (WriterModel {
            gnu_hash_size: (16 + 8 * blooms + 4 * buckets + 4 * symbols) as nat,
            gnu_hash_offset: offset as nat,
            reserved: (offset + 16 + 8 * blooms + 4 * buckets + 4 * symbols) as nat,
            ..writer_model(*old(w))
        }),
{
    w.reserve_gnu_hash(blooms, buckets, symbols)
}

/// Calls `Writer::write_file_header`, which starts the writing: it asks the
/// buffer for room for what is reserved, which a `Vec` has for less than half
/// the address space, fixes the length that may be written at that, and
/// writes the 64 bytes of the file header, for ELF-64, little-endian,
/// version 1. With a `Vec` for a buffer it cannot fail.
#[verifier::external_body]
pub(crate) fn write_file_header(w: &mut Writer<'_>, h: &FileHeader) -> (ok: bool)
    requires
        writer_model(*old(w)).buffer.len() == 0,
        writer_model(*old(w)).reserved >= 64,
        2 * writer_model(*old(w)).reserved <= usize::MAX,
        writer_model(*old(w)).segment_num <= 0xffff,
        writer_model(*old(w)).section_num < SHN_LORESERVE,
        writer_model(*old(w)).shstrtab_index < SHN_LORESERVE,
        h.e_machine != 8,
    ensures
        ok,
        writer_model(*final(w)) == (WriterModel {
            capacity: writer_model(*old(w)).reserved,
            buffer: file_header_bytes(*h, writer_model(*old(w))),
            ..writer_model(*old(w))
        }),
{
    w.write_file_header(
        &object::write::elf::FileHeader {
            os_abi: h.os_abi,
            abi_version: h.abi_version,
            e_type: h.e_type,
            e_machine: h.e_machine,
            e_entry: h.e_entry,
            e_flags: h.e_flags,
        },
    ).is_ok()
}

/// Calls `Writer::write_program_header`: writes the 56 bytes of one program
/// header.
#[verifier::external_body]
pub(crate) fn write_program_header(w: &mut Writer<'_>, h: &ProgramHeader)
    requires
        writer_model(*old(w)).buffer.len() + 56 <= writer_model(*old(w)).capacity,
    ensures
        writer_model(*final(w)) == written(writer_model(*old(w)), program_header_bytes(*h)),
{
    w.write_program_header(
        &object::write::elf::ProgramHeader {
            p_type: h.p_type,
            p_flags: h.p_flags,
            p_offset: h.p_offset,
            p_vaddr: h.p_vaddr,
            p_paddr: h.p_paddr,
            p_filesz: h.p_filesz,
            p_memsz: h.p_memsz,
            p_align: h.p_align,
        },
    )
}

/// Calls `Writer::pad_until`: writes zeros up to the file offset `offset`.
#[verifier::external_body]
pub(crate) fn pad_until(w: &mut Writer<'_>, offset: usize)
    requires
        writer_model(*old(w)).buffer.len() <= offset,
    ensures
        writer_model(*final(w)) == written(
            writer_model(*old(w)),
            zeros((offset - writer_model(*old(w)).buffer.len()) as nat),
        ),
{
    w.pad_until(offset)
}

/// Calls `Writer::write`: writes `data`.
#[verifier::external_body]
pub(crate) fn write_bytes(w: &mut Writer<'_>, data: &[u8])
    requires
        writer_model(*old(w)).buffer.len() + data@.len() <= writer_model(*old(w)).capacity,
    ensures
        writer_model(*final(w)) == written(writer_model(*old(w)), data@),
{
    w.write(data)
}

/// Calls `Writer::write_relocation` for a relocation with addend: writes its
/// 24 bytes. The writer is not one for MIPS, so the symbol and the type are
/// packed in the plain way.
#[verifier::external_body]
pub(crate) fn write_relocation(w: &mut Writer<'_>, rel: &Rel)
    requires
        writer_model(*old(w)).buffer.len() + 24 <= writer_model(*old(w)).capacity,
    ensures
        writer_model(*final(w)) == written(writer_model(*old(w)), rela_bytes(*rel)),
{
    w.write_relocation(
        true,
        &object::write::elf::Rel {
            r_offset: rel.r_offset,
            r_sym: rel.r_sym,
            r_type: rel.r_type,
            r_addend: rel.r_addend,
        },
    )
}

/// Calls `Writer::write_null_section_header`: where section indices are
/// reserved, pads to 8 and writes the null section header, which is all
/// zeros while the section indices stay below the reserved ones.
#[verifier::external_body]
pub(crate) fn write_null_section_header(w: &mut Writer<'_>)
    requires
        writer_model(*old(w)).section_num != 0 ==> {
            &&& align_up(writer_model(*old(w)).buffer.len(), 8) == writer_model(
                *old(w),
            ).section_offset
            &&& writer_model(*old(w)).section_offset + 64 <= writer_model(*old(w)).capacity
            &&& writer_model(*old(w)).section_num < SHN_LORESERVE
            &&& writer_model(*old(w)).shstrtab_index < SHN_LORESERVE
        },
    ensures
        writer_model(*old(w)).section_num == 0 ==> writer_model(*final(w)) == writer_model(
            *old(w),
        ),
        writer_model(*old(w)).section_num != 0 ==> writer_model(*final(w)) == (WriterModel {
            buffer: padded(writer_model(*old(w)).buffer, 8) + zeros(64),
            ..writer_model(*old(w))
        }),
{
    w.write_null_section_header()
}

/// Calls `Writer::write_section_header`: writes the 64 bytes of one section
/// header, its name looked up in `.shstrtab`.
#[verifier::external_body]
pub(crate) fn write_section_header(w: &mut Writer<'_>, h: &SectionHeader)
    requires
        has_offset(writer_model(*old(w)).shstrtab, h.name),
        writer_model(*old(w)).buffer.len() + 64 <= writer_model(*old(w)).capacity,
    ensures
        writer_model(*final(w)) == written(
            writer_model(*old(w)),
            section_header_bytes(offset_of(writer_model(*old(w)).shstrtab, h.name), *h),
        ),
{
    w.write_section_header(
        &object::write::elf::SectionHeader {
            name: h.name,
            sh_type: h.sh_type,
            sh_flags: h.sh_flags,
            sh_addr: h.sh_addr,
            sh_offset: h.sh_offset,
            sh_size: h.sh_size,
            sh_link: h.sh_link,
            sh_info: h.sh_info,
            sh_addralign: h.sh_addralign,
            sh_entsize: h.sh_entsize,
        },
    )
}

/// The section header that the writer makes for `.symtab`.
pub open spec fn symtab_header(m: WriterModel, num_local: u32) -> Seq<u8> {
    section_header_bytes(
        offset_of_name(m.shstrtab, seq![0x2eu8, 0x73, 0x79, 0x6d, 0x74, 0x61, 0x62]),
        own_header(2, 0, 0, m.symtab_offset, m.symtab_num * 24, m.strtab_index, num_local, 8, 24),
    )
}

/// The section header that the writer makes for `.strtab`.
pub open spec fn strtab_header(m: WriterModel) -> Seq<u8> {
    section_header_bytes(
        offset_of_name(m.shstrtab, seq![0x2eu8, 0x73, 0x74, 0x72, 0x74, 0x61, 0x62]),
        own_header(3, 0, 0, m.strtab_offset, m.strtab.data.len(), 0, 0, 1, 0),
    )
}

/// The section header that the writer makes for `.shstrtab`.
pub open spec fn shstrtab_header(m: WriterModel) -> Seq<u8> {
    section_header_bytes(
        offset_of_name(m.shstrtab, seq![0x2eu8, 0x73, 0x68, 0x73, 0x74, 0x72, 0x74, 0x61, 0x62]),
        own_header(3, 0, 0, m.shstrtab_offset, m.shstrtab.data.len(), 0, 0, 1, 0),
    )
}

/// The section header that the writer makes for `.dynamic`.
pub open spec fn dynamic_header(m: WriterModel, addr: u64) -> Seq<u8> {
    section_header_bytes(
        offset_of_name(m.shstrtab, seq![0x2eu8, 0x64, 0x79, 0x6e, 0x61, 0x6d, 0x69, 0x63]),
        own_header(6, 3, addr, m.dynamic_offset, m.dynamic_num * 16, m.dynstr_index, 0, 8, 16),
    )
}

/// The section header that the writer makes for `.dynsym`.
pub open spec fn dynsym_header(m: WriterModel, addr: u64, num_local: u32) -> Seq<u8> {
    section_header_bytes(
        offset_of_name(m.shstrtab, seq![0x2eu8, 0x64, 0x79, 0x6e, 0x73, 0x79, 0x6d]),
        own_header(
            11,
            2,
            addr,
            m.dynsym_offset,
            m.dynsym_num * 24,
            m.dynstr_index,
            num_local,
            8,
            24,
        ),
    )
}

/// The section header that the writer makes for `.dynstr`.
pub open spec fn dynstr_header(m: WriterModel, addr: u64) -> Seq<u8> {
    section_header_bytes(
        offset_of_name(m.shstrtab, seq![0x2eu8, 0x64, 0x79, 0x6e, 0x73, 0x74, 0x72]),
        own_header(3, 2, addr, m.dynstr_offset, m.dynstr.data.len(), 0, 0, 1, 0),
    )
}

/// The section header that the writer makes for `.hash`.
pub open spec fn hash_section_header(m: WriterModel, addr: u64) -> Seq<u8> {
    section_header_bytes(
        offset_of_name(m.shstrtab, seq![0x2eu8, 0x68, 0x61, 0x73, 0x68]),
        own_header(5, 2, addr, m.hash_offset, m.hash_size, m.dynsym_index, 0, 4, 4),
    )
}

/// The section header that the writer makes for `.gnu.hash`.
pub open spec fn gnu_hash_section_header(m: WriterModel, addr: u64) -> Seq<u8> {
    section_header_bytes(
        offset_of_name(
            m.shstrtab,
            seq![0x2eu8, 0x67, 0x6e, 0x75, 0x2e, 0x68, 0x61, 0x73, 0x68],
        ),
        own_header(
            0x6fff_fff6,
            2,
            addr,
            m.gnu_hash_offset,
            m.gnu_hash_size,
            m.dynsym_index,
            0,
            8,
            0,
        ),
    )
}

/// Whether one of the writer's own section headers can be written:
/// `.shstrtab` is laid out and 64 more bytes fit.
pub open spec fn can_write_header(m: WriterModel) -> bool {
    is_laid_out(m.shstrtab) && m.buffer.len() + 64 <= m.capacity
}

/// Calls `Writer::write_symtab_section_header`: where the index of `.symtab`
/// is reserved, writes its section header, of type `SHT_SYMTAB`, linked to
/// `.strtab`, with `num_local` for its info.
#[verifier::external_body]
pub(crate) fn write_symtab_section_header(w: &mut Writer<'_>, num_local: u32)
    requires
        writer_model(*old(w)).symtab_index != 0 ==> can_write_header(writer_model(*old(w))),
    ensures
        writer_model(*old(w)).symtab_index == 0 ==> writer_model(*final(w)) == writer_model(
            *old(w),
        ),
        writer_model(*old(w)).symtab_index != 0 ==> writer_model(*final(w)) == written(
            writer_model(*old(w)),
            symtab_header(writer_model(*old(w)), num_local),
        ),
{
    w.write_symtab_section_header(num_local)
}

/// Calls `Writer::write_strtab_section_header`: where the index of `.strtab`
/// is reserved, writes its section header, of type `SHT_STRTAB`.
#[verifier::external_body]
pub(crate) fn write_strtab_section_header(w: &mut Writer<'_>)
    requires
        writer_model(*old(w)).strtab_index != 0 ==> can_write_header(writer_model(*old(w))),
    ensures
        writer_model(*old(w)).strtab_index == 0 ==> writer_model(*final(w)) == writer_model(
            *old(w),
        ),
        writer_model(*old(w)).strtab_index != 0 ==> writer_model(*final(w)) == written(
            writer_model(*old(w)),
            strtab_header(writer_model(*old(w))),
        ),
{
    w.write_strtab_section_header()
}

/// Calls `Writer::write_shstrtab_section_header`: where the index of
/// `.shstrtab` is reserved, writes its section header, of type `SHT_STRTAB`.
#[verifier::external_body]
pub(crate) fn write_shstrtab_section_header(w: &mut Writer<'_>)
    requires
        writer_model(*old(w)).shstrtab_index != 0 ==> can_write_header(writer_model(*old(w))),
    ensures
        writer_model(*old(w)).shstrtab_index == 0 ==> writer_model(*final(w)) == writer_model(
            *old(w),
        ),
        writer_model(*old(w)).shstrtab_index != 0 ==> writer_model(*final(w)) == written(
            writer_model(*old(w)),
            shstrtab_header(writer_model(*old(w))),
        ),
{
    w.write_shstrtab_section_header()
}

/// Calls `Writer::write_dynamic_section_header`: where the index of
/// `.dynamic` is reserved, writes its section header, of type `SHT_DYNAMIC`,
/// writable and allocated, linked to `.dynstr`.
#[verifier::external_body]
pub(crate) fn write_dynamic_section_header(w: &mut Writer<'_>, addr: u64)
    requires
        writer_model(*old(w)).dynamic_named ==> can_write_header(writer_model(*old(w))),
    ensures
        !writer_model(*old(w)).dynamic_named ==> writer_model(*final(w)) == writer_model(
            *old(w),
        ),
        writer_model(*old(w)).dynamic_named ==> writer_model(*final(w)) == written(
            writer_model(*old(w)),
            dynamic_header(writer_model(*old(w)), addr),
        ),
{
    w.write_dynamic_section_header(addr)
}

/// Calls `Writer::write_dynsym_section_header`: where the index of `.dynsym`
/// is reserved, writes its section header, of type `SHT_DYNSYM`, allocated,
/// linked to `.dynstr`, with `num_local` for its info.
#[verifier::external_body]
pub(crate) fn write_dynsym_section_header(w: &mut Writer<'_>, addr: u64, num_local: u32)
    requires
        writer_model(*old(w)).dynsym_index != 0 ==> can_write_header(writer_model(*old(w))),
    ensures
        writer_model(*old(w)).dynsym_index == 0 ==> writer_model(*final(w)) == writer_model(
            *old(w),
        ),
        writer_model(*old(w)).dynsym_index != 0 ==> writer_model(*final(w)) == written(
            writer_model(*old(w)),
            dynsym_header(writer_model(*old(w)), addr, num_local),
        ),
{
    w.write_dynsym_section_header(addr, num_local)
}

/// Calls `Writer::write_dynstr_section_header`: where the index of `.dynstr`
/// is reserved, writes its section header, of type `SHT_STRTAB`, allocated.
#[verifier::external_body]
pub(crate) fn write_dynstr_section_header(w: &mut Writer<'_>, addr: u64)
    requires
        writer_model(*old(w)).dynstr_index != 0 ==> can_write_header(writer_model(*old(w))),
    ensures
        writer_model(*old(w)).dynstr_index == 0 ==> writer_model(*final(w)) == writer_model(
            *old(w),
        ),
        writer_model(*old(w)).dynstr_index != 0 ==> writer_model(*final(w)) == written(
            writer_model(*old(w)),
            dynstr_header(writer_model(*old(w)), addr),
        ),
{
    w.write_dynstr_section_header(addr)
}

/// Calls `Writer::write_hash_section_header`: where the index of `.hash` is
/// reserved, writes its section header, of type `SHT_HASH`, allocated, linked
/// to `.dynsym`.
#[verifier::external_body]
pub(crate) fn write_hash_section_header(w: &mut Writer<'_>, addr: u64)
    requires
        writer_model(*old(w)).hash_named ==> can_write_header(writer_model(*old(w))),
    ensures
        !writer_model(*old(w)).hash_named ==> writer_model(*final(w)) == writer_model(*old(w)),
        writer_model(*old(w)).hash_named ==> writer_model(*final(w)) == written(
            writer_model(*old(w)),
            hash_section_header(writer_model(*old(w)), addr),
        ),
{
    w.write_hash_section_header(addr)
}

/// Calls `Writer::write_gnu_hash_section_header`: where the index of
/// `.gnu.hash` is reserved, writes its section header, of type
/// `SHT_GNU_HASH`, allocated, linked to `.dynsym`.
#[verifier::external_body]
pub(crate) fn write_gnu_hash_section_header(w: &mut Writer<'_>, addr: u64)
    requires
        writer_model(*old(w)).gnu_hash_named ==> can_write_header(writer_model(*old(w))),
    ensures
        !writer_model(*old(w)).gnu_hash_named ==> writer_model(*final(w)) == writer_model(
            *old(w),
        ),
        writer_model(*old(w)).gnu_hash_named ==> writer_model(*final(w)) == written(
            writer_model(*old(w)),
            gnu_hash_section_header(writer_model(*old(w)), addr),
        ),
{
    w.write_gnu_hash_section_header(addr)
}

/// Calls `Writer::write_null_symbol`: where symbols are reserved, pads to 8
/// and writes the null symbol, 24 zero bytes.
#[verifier::external_body]
pub(crate) fn write_null_symbol(w: &mut Writer<'_>)
    requires
        writer_model(*old(w)).symtab_num != 0 ==> {
            &&& align_up(writer_model(*old(w)).buffer.len(), 8) == writer_model(
                *old(w),
            ).symtab_offset
            &&& writer_model(*old(w)).symtab_offset + 24 <= writer_model(*old(w)).capacity
        },
    ensures
        writer_model(*old(w)).symtab_num == 0 ==> writer_model(*final(w)) == writer_model(
            *old(w),
        ),
        writer_model(*old(w)).symtab_num != 0 ==> writer_model(*final(w)) == (WriterModel {
            buffer: padded(writer_model(*old(w)).buffer, 8) + zeros(24),
            ..writer_model(*old(w))
        }),
{
    w.write_null_symbol()
}

/// Calls `Writer::write_symbol`: writes the 24 bytes of one symbol of
/// `.symtab`, its name looked up in `.strtab`.
#[verifier::external_body]
pub(crate) fn write_symbol(w: &mut Writer<'_>, s: &Sym)
    requires
        has_offset(writer_model(*old(w)).strtab, s.name),
        s.section is Some ==> s.section->Some_0 < SHN_LORESERVE,
        writer_model(*old(w)).buffer.len() + 24 <= writer_model(*old(w)).capacity,
    ensures
        writer_model(*final(w)) == written(
            writer_model(*old(w)),
            symbol_bytes(offset_of(writer_model(*old(w)).strtab, s.name), *s),
        ),
{
    w.write_symbol(
        &object::write::elf::Sym {
            name: s.name,
            section: s.section.map(object::write::elf::SectionIndex),
            st_info: s.st_info,
            st_other: s.st_other,
            st_shndx: s.st_shndx,
            st_value: s.st_value,
            st_size: s.st_size,
        },
    )
}

/// Calls `Writer::write_strtab`: where `.strtab` is reserved, writes its
/// bytes.
#[verifier::external_body]
pub(crate) fn write_strtab(w: &mut Writer<'_>)
    requires
        writer_model(*old(w)).strtab_offset != 0 ==> {
            &&& writer_model(*old(w)).buffer.len() == writer_model(*old(w)).strtab_offset
            &&& writer_model(*old(w)).strtab_offset + writer_model(*old(w)).strtab.data.len()
                <= writer_model(*old(w)).capacity
        },
    ensures
        writer_model(*old(w)).strtab_offset == 0 ==> writer_model(*final(w)) == writer_model(
            *old(w),
        ),
        writer_model(*old(w)).strtab_offset != 0 ==> writer_model(*final(w)) == written(
            writer_model(*old(w)),
            writer_model(*old(w)).strtab.data,
        ),
{
    w.write_strtab()
}

/// Calls `Writer::write_shstrtab`: where `.shstrtab` is reserved, writes its
/// bytes.
#[verifier::external_body]
pub(crate) fn write_shstrtab(w: &mut Writer<'_>)
    requires
        writer_model(*old(w)).shstrtab_offset != 0 ==> {
            &&& writer_model(*old(w)).buffer.len() == writer_model(*old(w)).shstrtab_offset
            &&& writer_model(*old(w)).shstrtab_offset + writer_model(
                *old(w),
            ).shstrtab.data.len() <= writer_model(*old(w)).capacity
        },
    ensures
        writer_model(*old(w)).shstrtab_offset == 0 ==> writer_model(*final(w)) == writer_model(
            *old(w),
        ),
        writer_model(*old(w)).shstrtab_offset != 0 ==> writer_model(*final(w)) == written(
            writer_model(*old(w)),
            writer_model(*old(w)).shstrtab.data,
        ),
{
    w.write_shstrtab()
}

/// Calls `Writer::write_align_dynamic`: where `.dynamic` is reserved, pads
/// to 8.
#[verifier::external_body]
pub(crate) fn write_align_dynamic(w: &mut Writer<'_>)
    requires
        writer_model(*old(w)).dynamic_offset != 0 ==> align_up(
            writer_model(*old(w)).buffer.len(),
            8,
        ) == writer_model(*old(w)).dynamic_offset,
    ensures
        writer_model(*old(w)).dynamic_offset == 0 ==> writer_model(*final(w)) == writer_model(
            *old(w),
        ),
        writer_model(*old(w)).dynamic_offset != 0 ==> writer_model(*final(w)) == (WriterModel {
            buffer: padded(writer_model(*old(w)).buffer, 8),
            ..writer_model(*old(w))
        }),
{
    w.write_align_dynamic()
}

/// Calls `Writer::write_dynamic`: writes the 16 bytes of one dynamic entry.
#[verifier::external_body]
pub(crate) fn write_dynamic(w: &mut Writer<'_>, tag: u32, value: u64)
    requires
        writer_model(*old(w)).buffer.len() + 16 <= writer_model(*old(w)).capacity,
    ensures
        writer_model(*final(w)) == written(writer_model(*old(w)), dynamic_bytes(tag, value)),
{
    w.write_dynamic(tag, value)
}

/// Calls `Writer::dynstr_len`: the number of bytes of `.dynstr`, once it is
/// reserved.
#[verifier::external_body]
pub(crate) fn dynstr_len(w: &mut Writer<'_>) -> (len: usize)
    requires
        writer_model(*old(w)).dynstr_offset != 0,
    ensures
        len == writer_model(*old(w)).dynstr.data.len(),
        writer_model(*final(w)) == writer_model(*old(w)),
{
    w.dynstr_len()
}

/// Calls `Writer::write_dynamic_string`: writes one dynamic entry whose value
/// is the offset of a string of `.dynstr`.
#[verifier::external_body]
pub(crate) fn write_dynamic_string(w: &mut Writer<'_>, tag: u32, id: StringId)
    requires
        has_offset(writer_model(*old(w)).dynstr, Some(id)),
        writer_model(*old(w)).buffer.len() + 16 <= writer_model(*old(w)).capacity,
    ensures
        writer_model(*final(w)) == written(
            writer_model(*old(w)),
            dynamic_bytes(tag, offset_of(writer_model(*old(w)).dynstr, Some(id)) as u64),
        ),
{
    w.write_dynamic_string(tag, id)
}

/// Calls `Writer::write_null_dynamic_symbol`: where dynamic symbols are
/// reserved, pads to 8 and writes the null symbol, 24 zero bytes.
#[verifier::external_body]
pub(crate) fn write_null_dynamic_symbol(w: &mut Writer<'_>)
    requires
        writer_model(*old(w)).dynsym_num != 0 ==> {
            &&& align_up(writer_model(*old(w)).buffer.len(), 8) == writer_model(
                *old(w),
            ).dynsym_offset
            &&& writer_model(*old(w)).dynsym_offset + 24 <= writer_model(*old(w)).capacity
        },
    ensures
        writer_model(*old(w)).dynsym_num == 0 ==> writer_model(*final(w)) == writer_model(
            *old(w),
        ),
        writer_model(*old(w)).dynsym_num != 0 ==> writer_model(*final(w)) == (WriterModel {
            buffer: padded(writer_model(*old(w)).buffer, 8) + zeros(24),
            ..writer_model(*old(w))
        }),
{
    w.write_null_dynamic_symbol()
}

/// Calls `Writer::write_dynamic_symbol`: writes the 24 bytes of one symbol of
/// `.dynsym`, its name looked up in `.dynstr`.
#[verifier::external_body]
pub(crate) fn write_dynamic_symbol(w: &mut Writer<'_>, s: &Sym)
    requires
        has_offset(writer_model(*old(w)).dynstr, s.name),
        s.section is Some ==> s.section->Some_0 < SHN_LORESERVE,
        writer_model(*old(w)).buffer.len() + 24 <= writer_model(*old(w)).capacity,
    ensures
        writer_model(*final(w)) == written(
            writer_model(*old(w)),
            symbol_bytes(offset_of(writer_model(*old(w)).dynstr, s.name), *s),
        ),
{
    w.write_dynamic_symbol(
        &object::write::elf::Sym {
            name: s.name,
            section: s.section.map(object::write::elf::SectionIndex),
            st_info: s.st_info,
            st_other: s.st_other,
            st_shndx: s.st_shndx,
            st_value: s.st_value,
            st_size: s.st_size,
        },
    )
}

/// Calls `Writer::write_dynstr`: where `.dynstr` is reserved, writes its
/// bytes.
#[verifier::external_body]
pub(crate) fn write_dynstr(w: &mut Writer<'_>)
    requires
        writer_model(*old(w)).dynstr_offset != 0 ==> {
            &&& writer_model(*old(w)).buffer.len() == writer_model(*old(w)).dynstr_offset
            &&& writer_model(*old(w)).dynstr_offset + writer_model(*old(w)).dynstr.data.len()
                <= writer_model(*old(w)).capacity
        },
    ensures
        writer_model(*old(w)).dynstr_offset == 0 ==> writer_model(*final(w)) == writer_model(
            *old(w),
        ),
        writer_model(*old(w)).dynstr_offset != 0 ==> writer_model(*final(w)) == written(
            writer_model(*old(w)),
            writer_model(*old(w)).dynstr.data,
        ),
{
    w.write_dynstr()
}

/// Calls `Writer::write_hash`: pads to 4 and writes a System V hash table,
/// its header and then 4 bytes for each bucket and chain entry. `hashes`
/// holds, for each symbol index, the hash of the symbol, or nothing for a
/// symbol that is left out of the table; a hash is taken modulo the number of
/// buckets.
#[verifier::external_body]
pub(crate) fn write_hash(w: &mut Writer<'_>, buckets: u32, chains: u32, hashes: &Vec<Option<u32>>)
    requires
        hashes@.len() == chains,
        buckets == 0 ==> forall|i: int| 0 <= i < hashes@.len() ==> hashes@[i] is None,
        align_up(writer_model(*old(w)).buffer.len(), 4) == writer_model(*old(w)).hash_offset,
        writer_model(*old(w)).hash_offset + 8 + 4 * buckets + 4 * chains <= writer_model(
            *old(w),
        ).capacity,
    ensures
        writer_model(*final(w)) == (WriterModel {
            buffer: padded(writer_model(*old(w)).buffer, 4) + hash_header(buckets, chains)
                + hash_table_body(buckets, chains, hashes@),
            ..writer_model(*old(w))
        }),
        writer_model(*final(w)).buffer.len() == writer_model(*old(w)).hash_offset + 8 + 4
            * buckets + 4 * chains,
{
    w.write_hash(buckets, chains, |i| hashes[i as usize])
}

/// Calls `Writer::write_gnu_hash`: pads to 8 and writes a GNU hash table,
/// its header, 8 bytes for each Bloom word and 4 for each bucket and symbol.
/// `hashes` holds the hash of each symbol of the table, in the order of the
/// dynamic symbol table from `symbol_base` on; a hash is taken modulo the
/// number of buckets.
#[verifier::external_body]
pub(crate) fn write_gnu_hash(
    w: &mut Writer<'_>,
    symbol_base: u32,
    bloom_shift: u32,
    bloom_count: u32,
    buckets: u32,
    hashes: &Vec<u32>,
)
    requires
        hashes@.len() + symbol_base <= u32::MAX,
        bloom_shift < 32,
        bloom_count >= 1,
        buckets == 0 ==> hashes@.len() == 0,
        align_up(writer_model(*old(w)).buffer.len(), 8) == writer_model(*old(w)).gnu_hash_offset,
        writer_model(*old(w)).gnu_hash_offset + 16 + 8 * bloom_count + 4 * buckets + 4
            * hashes@.len() <= writer_model(*old(w)).capacity,
    ensures
        writer_model(*final(w)) == (WriterModel {
            buffer: padded(writer_model(*old(w)).buffer, 8) + gnu_hash_header(
                buckets,
                symbol_base,
                bloom_count,
                bloom_shift,
            ) + gnu_hash_table_body(symbol_base, bloom_shift, bloom_count, buckets, hashes@),
            ..writer_model(*old(w))
        }),
        writer_model(*final(w)).buffer.len() == writer_model(*old(w)).gnu_hash_offset + 16 + 8
            * bloom_count + 4 * buckets + 4 * hashes@.len(),
{
    w.write_gnu_hash(
        symbol_base,
        bloom_shift,
        bloom_count,
        buckets,
        hashes.len() as u32,
        |i| hashes[i as usize],
    )
}

impl WriterModel {
    /// The state of a writer that has reserved and written nothing.
    pub open spec fn fresh() -> WriterModel {
        let table = StringTable { strings: Seq::empty(), offsets: Seq::empty(), data: Seq::empty() };
        WriterModel {
            reserved: 0,
            buffer: Seq::empty(),
            sink: Seq::empty(),
            capacity: 0,
            segment_offset: 0,
            segment_num: 0,
            section_offset: 0,
            section_num: 0,
            shstrtab: table,
            shstrtab_index: 0,
            shstrtab_offset: 0,
            need_strtab: false,
            strtab: table,
            strtab_index: 0,
            strtab_offset: 0,
            symtab_index: 0,
            symtab_offset: 0,
            symtab_num: 0,
            need_dynstr: false,
            dynstr: table,
            dynstr_index: 0,
            dynstr_offset: 0,
            dynsym_index: 0,
            dynsym_offset: 0,
            dynsym_num: 0,
            dynamic_named: false,
            dynamic_offset: 0,
            dynamic_num: 0,
            hash_named: false,
            hash_offset: 0,
            hash_size: 0,
            gnu_hash_named: false,
            gnu_hash_offset: 0,
            gnu_hash_size: 0,
        }
    }
}

} // verus!
