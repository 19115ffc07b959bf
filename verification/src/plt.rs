//! The procedure linkage table and its part of the global offset table, made
//! for the symbols that the output imports from shared objects.

use crate::accrete::{empty_section, enter_symbol, insert_symbol};
use crate::bytes::{append_zeros, le32, push_le32, zeros};
use crate::lookup::{find_section, position, section_names};
use crate::model::{
    DynamicSymbol, LinkError, LinkErrorView, OutputSection, Rel, Relocation, RelocationEncoding,
    RelocationKind, RelocationTarget, RelocationView, SectionView, Symbol, SymbolView, TargetView,
};
use crate::text::{lemma_views_push, views};
use vstd::prelude::*;
use vstd::string::*;

verus! {

/// `R_X86_64_JUMP_SLOT`.
pub const R_X86_64_JUMP_SLOT: u32 = 7;

/// The header of `.plt`: push the second word of `.got.plt`, jump through the
/// third, pad.
pub open spec fn plt_header() -> Seq<u8> {
    seq![
        0xffu8,
        0x35,
        0x00,
        0x00,
        0x00,
        0x00,
        0xff,
        0x25,
        0x00,
        0x00,
        0x00,
        0x00,
        0x0f,
        0x1f,
        0x40,
        0x00,
    ]
}

/// The stub of the import of index `i`: jump through its slot of `.got.plt`,
/// push `i`, jump to the header.
pub open spec fn plt_stub(i: u32) -> Seq<u8> {
    seq![0xffu8, 0x25, 0x00, 0x00, 0x00, 0x00, 0x68] + le32(i) + seq![0xe9u8, 0x00, 0x00, 0x00, 0x00]
}

/// The content of `.plt` for `k` imports.
pub open spec fn plt_content(k: nat) -> Seq<u8>
    decreases k,
{
    if k == 0 {
        plt_header()
    } else {
        plt_content((k - 1) as nat) + plt_stub((k - 1) as u32)
    }
}

/// A 32-bit relocation relative to its place, against the start of a section.
pub open spec fn relative32(offset: u64, addend: i64, section: Seq<char>) -> RelocationView {
    RelocationView {
        offset,
        kind: RelocationKind::Relative,
        encoding: RelocationEncoding::Generic,
        size: 32,
        addend,
        target: TargetView::Section(section, 0),
    }
}

/// A 64-bit absolute relocation against the start of a section.
pub open spec fn absolute64(offset: u64, addend: i64, section: Seq<char>) -> RelocationView {
    RelocationView {
        offset,
        kind: RelocationKind::Absolute,
        encoding: RelocationEncoding::Generic,
        size: 64,
        addend,
        target: TargetView::Section(section, 0),
    }
}

/// The relocations of `.plt` for `k` imports: two for the header, then for
/// each stub one that reaches its slot of `.got.plt` and one that reaches the
/// header.
pub open spec fn plt_relocations(k: nat) -> Seq<RelocationView>
    decreases k,
{
    if k == 0 {
        seq![relative32(2, 4, ".got.plt"@), relative32(8, 12, ".got.plt"@)]
    } else {
        let i = (k - 1) as int;
        plt_relocations((k - 1) as nat).push(
            relative32((16 + 16 * i + 2) as u64, (8 * i + 20) as i64, ".got.plt"@),
        ).push(relative32((16 + 16 * i + 12) as u64, -4i64, ".plt"@))
    }
}

/// The relocations of `.got.plt` for `k` imports: its first word is the
/// address of `.dynamic`, and each slot starts out at the second instruction
/// of its stub.
pub open spec fn got_relocations(k: nat) -> Seq<RelocationView>
    decreases k,
{
    if k == 0 {
        seq![absolute64(0, 0, ".dynamic"@)]
    } else {
        let i = (k - 1) as int;
        got_relocations((k - 1) as nat).push(
            absolute64((24 + 8 * i) as u64, (16 + 16 * i + 6) as i64, ".plt"@),
        )
    }
}

/// The records of `.rela.plt` for `k` imports: one jump slot each, at the
/// import's slot of `.got.plt`, against its dynamic symbol.
pub open spec fn jump_slots(k: nat) -> Seq<Rel>
    decreases k,
{
    if k == 0 {
        Seq::empty()
    } else {
        let i = (k - 1) as int;
        jump_slots((k - 1) as nat).push(
            Rel {
                r_offset: (24 + 8 * i) as u64,
                r_sym: (i + 1) as u32,
                r_type: R_X86_64_JUMP_SLOT,
                r_addend: 0,
            },
        )
    }
}

/// The section `.plt` for `k` imports.
pub open spec fn plt_section(k: nat) -> SectionView {
    SectionView {
        content: plt_content(k),
        relocations: plt_relocations(k),
        is_executable: true,
        ..empty_section(".plt"@)
    }
}

/// The section `.got.plt` for `k` imports.
pub open spec fn got_section(k: nat) -> SectionView {
    SectionView {
        content: zeros(24 + 8 * k),
        relocations: got_relocations(k),
        ..empty_section(".got.plt"@)
    }
}

/// The symbol that stands for the stub of the import `name` of index `i`.
pub open spec fn stub_symbol(name: Seq<char>, i: int) -> SymbolView {
    SymbolView {
        name,
        section_name: ".plt"@,
        offset: (16 + 16 * i) as u64,
        is_global: true,
        is_plt: true,
    }
}

/// The symbol table with the stubs of the first `k` imports entered.
pub open spec fn with_stubs(symbols: Seq<SymbolView>, imports: Seq<Seq<char>>, k: nat) -> Seq<
    SymbolView,
>
    decreases k,
{
    if k == 0 {
        symbols
    } else {
        insert_symbol(
            with_stubs(symbols, imports, (k - 1) as nat),
            stub_symbol(imports[k - 1], k - 1),
        )
    }
}

/// The local symbol that marks the start of a section.
pub open spec fn landmark(name: Seq<char>, section: Seq<char>) -> SymbolView {
    SymbolView { name, section_name: section, offset: 0, is_global: false, is_plt: false }
}

/// The sizes of the linkage tables: a header and one entry for each import.
pub proof fn lemma_table_sizes(k: nat)
    ensures
        plt_content(k).len() == 16 + 16 * k,
        got_section(k).content.len() == 24 + 8 * k,
        jump_slots(k).len() == k,
        plt_relocations(k).len() == 2 + 2 * k,
        got_relocations(k).len() == 1 + k,
    decreases k,
{
    if k > 0 {
        lemma_table_sizes((k - 1) as nat);
    }
}

/// Whether the linkage tables can be made: the output has no section called
/// `.plt` or `.got.plt` yet, and the imports can be numbered in 32 bits.
pub open spec fn can_synthesize(sections: Seq<SectionView>, imports: nat) -> bool {
    &&& position(section_names(sections), ".plt"@) == sections.len()
    &&& position(section_names(sections), ".got.plt"@) == sections.len()
    &&& imports < u32::MAX
}

fn make_relative32(offset: u64, addend: i64, section: &str) -> (r: Relocation)
    ensures
        r@ == relative32(offset, addend, section@),
{
    Relocation {
        offset,
        kind: RelocationKind::Relative,
        encoding: RelocationEncoding::Generic,
        size: 32,
        addend,
        target: RelocationTarget::Section((String::from_str(section), 0)),
    }
}

fn make_absolute64(offset: u64, addend: i64, section: &str) -> (r: Relocation)
    ensures
        r@ == absolute64(offset, addend, section@),
{
    Relocation {
        offset,
        kind: RelocationKind::Absolute,
        encoding: RelocationEncoding::Generic,
        size: 64,
        addend,
        target: RelocationTarget::Section((String::from_str(section), 0)),
    }
}

/// Builds `.plt` for `k` imports.
fn build_plt(k: u32) -> (s: OutputSection)
    ensures
        s@ == plt_section(k as nat),
        s.section_index is None,
        s.name_string_id is None,
{
    let mut content: Vec<u8> = Vec::new();
    content.push(0xff);
    content.push(0x35);
    content.push(0x00);
    content.push(0x00);
    content.push(0x00);
    content.push(0x00);
    content.push(0xff);
    content.push(0x25);
    content.push(0x00);
    content.push(0x00);
    content.push(0x00);
    content.push(0x00);
    content.push(0x0f);
    content.push(0x1f);
    content.push(0x40);
    content.push(0x00);
    assert(content@ =~= plt_content(0));
    let mut relocations: Vec<Relocation> = Vec::new();
    let first = make_relative32(2, 4, ".got.plt");
    let second = make_relative32(8, 12, ".got.plt");
    proof {
        lemma_views_push(relocations@, first);
        lemma_views_push(relocations@.push(first), second);
    }
    relocations.push(first);
    relocations.push(second);
    assert(views(relocations@) =~= plt_relocations(0));
    let mut i: u32 = 0;
    while i < k
        invariant
            i <= k,
            content@ == plt_content(i as nat),
            views(relocations@) == plt_relocations(i as nat),
        decreases k - i,
    {
        let ghost before = content@;
        content.push(0xff);
        content.push(0x25);
        content.push(0x00);
        content.push(0x00);
        content.push(0x00);
        content.push(0x00);
        content.push(0x68);
        push_le32(&mut content, i);
        content.push(0xe9);
        content.push(0x00);
        content.push(0x00);
        content.push(0x00);
        content.push(0x00);
        assert(content@ =~= before + plt_stub(i));
        let base: u64 = 16 + 16 * (i as u64);
        let to_slot = make_relative32(base + 2, 8 * (i as i64) + 20, ".got.plt");
        let to_header = make_relative32(base + 12, -4, ".plt");
        proof {
            lemma_views_push(relocations@, to_slot);
            lemma_views_push(relocations@.push(to_slot), to_header);
        }
        relocations.push(to_slot);
        relocations.push(to_header);
        i += 1;
    }
    OutputSection {
        name: String::from_str(".plt"),
        content,
        offset: 0,
        relocations,
        is_executable: true,
        is_writable: false,
        is_bss: false,
        section_index: None,
        name_string_id: None,
    }
}

/// Builds `.got.plt` for `k` imports.
fn build_got(k: u32) -> (s: OutputSection)
    ensures
        s@ == got_section(k as nat),
        s.section_index is None,
        s.name_string_id is None,
{
    let mut content: Vec<u8> = Vec::new();
    append_zeros(&mut content, 24);
    let mut relocations: Vec<Relocation> = Vec::new();
    let first = make_absolute64(0, 0, ".dynamic");
    proof {
        lemma_views_push(relocations@, first);
    }
    relocations.push(first);
    assert(views(relocations@) =~= got_relocations(0));
    assert(content@ =~= zeros(24));
    let mut i: u32 = 0;
    while i < k
        invariant
            i <= k,
            content@ == zeros((24 + 8 * i) as nat),
            views(relocations@) == got_relocations(i as nat),
        decreases k - i,
    {
        append_zeros(&mut content, 8);
        assert(content@ =~= zeros((24 + 8 * (i + 1)) as nat));
        let slot = make_absolute64(24 + 8 * (i as u64), 16 + 16 * (i as i64) + 6, ".plt");
        proof {
            lemma_views_push(relocations@, slot);
        }
        relocations.push(slot);
        i += 1;
    }
    OutputSection {
        name: String::from_str(".got.plt"),
        content,
        offset: 0,
        relocations,
        is_executable: false,
        is_writable: false,
        is_bss: false,
        section_index: None,
        name_string_id: None,
    }
}

/// Builds the records of `.rela.plt` for `k` imports.
fn build_jump_slots(k: u32) -> (r: Vec<Rel>)
    requires
        k < u32::MAX,
    ensures
        r@ == jump_slots(k as nat),
{
    let mut relocations: Vec<Rel> = Vec::new();
    let mut i: u32 = 0;
    while i < k
        invariant
            i <= k,
            k < u32::MAX,
            relocations@ == jump_slots(i as nat),
        decreases k - i,
    {
        relocations.push(
            Rel {
                r_offset: 24 + 8 * (i as u64),
                r_sym: i + 1,
                r_type: R_X86_64_JUMP_SLOT,
                r_addend: 0,
            },
        );
        i += 1;
    }
    relocations
}

/// The output sections, the symbol table and the dynamic relocations after
/// the linkage tables for `imports` are made.
pub ghost struct Synthesized {
    pub sections: Seq<SectionView>,
    pub symbols: Seq<SymbolView>,
    pub jump_slots: Seq<Rel>,
}

/// What synthesis makes: `.plt` and `.got.plt` at the end of the output
/// sections, the symbol `_GLOBAL_OFFSET_TABLE_`, a stub symbol for each import
/// in order, and a jump slot for each import.
pub open spec fn synthesized(
    sections: Seq<SectionView>,
    symbols: Seq<SymbolView>,
    imports: Seq<Seq<char>>,
) -> Synthesized {
    Synthesized {
        sections: sections.push(plt_section(imports.len())).push(got_section(imports.len())),
        symbols: with_stubs(
            insert_symbol(symbols, landmark("_GLOBAL_OFFSET_TABLE_"@, ".got.plt"@)),
            imports,
            imports.len(),
        ),
        jump_slots: jump_slots(imports.len()),
    }
}

/// Makes `.plt` and `.got.plt` for the imported symbols, enters the symbols
/// that stand for them, and returns the records of `.rela.plt`.
///
/// Fails with `Bug` where the output already has a section called `.plt` or
/// `.got.plt`, or where the imports cannot be numbered in 32 bits.
pub fn synthesize(
    sections: &mut Vec<OutputSection>,
    symbols: &mut Vec<Symbol>,
    imports: &Vec<DynamicSymbol>,
) -> (res: Result<Vec<Rel>, LinkError>)
    ensures
        can_synthesize(views(old(sections)@), imports@.len()) ==> res is Ok && ({
            let made = synthesized(views(old(sections)@), views(old(symbols)@), views(imports@));
            &&& views(final(sections)@) == made.sections
            &&& views(final(symbols)@) == made.symbols
            &&& res->Ok_0@ == made.jump_slots
        }),
        !can_synthesize(views(old(sections)@), imports@.len()) ==> res is Err && res->Err_0@
            == LinkErrorView::Bug,
{
    if find_section(sections, ".plt") != sections.len() || find_section(sections, ".got.plt")
        != sections.len() || imports.len() >= u32::MAX as usize {
        return Err(LinkError::Bug);
    }
    let k = imports.len() as u32;
    let plt = build_plt(k);
    let got = build_got(k);
    proof {
        lemma_views_push(sections@, plt);
        lemma_views_push(sections@.push(plt), got);
    }
    sections.push(plt);
    sections.push(got);
    enter_symbol(
        symbols,
        Symbol {
            name: String::from_str("_GLOBAL_OFFSET_TABLE_"),
            section_name: String::from_str(".got.plt"),
            offset: 0,
            symbol_name_string_id: None,
            symbol_name_dynamic_string_id: None,
            is_global: false,
            is_plt: false,
        },
    );
    let ghost start = views(symbols@);
    let ghost names = views(imports@);
    let mut i: u32 = 0;
    while i < k
        invariant
            i <= k,
            k == imports@.len(),
            names == views(imports@),
            views(symbols@) == with_stubs(start, names, i as nat),
        decreases k - i,
    {
        enter_symbol(
            symbols,
            Symbol {
                name: imports[i as usize].name.clone(),
                section_name: String::from_str(".plt"),
                offset: 16 + 16 * (i as u64),
                symbol_name_string_id: None,
                symbol_name_dynamic_string_id: None,
                is_global: true,
                is_plt: true,
            },
        );
        i += 1;
    }
    Ok(build_jump_slots(k))
}

} // verus!
