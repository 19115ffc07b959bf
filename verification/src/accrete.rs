//! Merging one relocatable object into the output: its sections are appended
//! to the output sections of the same name, its relocations are rebased onto
//! them, and its symbols are entered into the symbol table.

use crate::bytes::{append_bytes, append_zeros, zeros};
use crate::input::{
    InputObject, InputObjectView, InputRelocation, InputSectionView, InputSymbolKind,
    InputSymbolView, SymbolPlace, SHF_ALLOC, SHF_EXECINSTR, SHF_WRITE,
};
use crate::lookup::{
    find_section, find_symbol, lemma_position, lemma_position_is, position, section_names,
    symbol_names,
};
use crate::model::{
    DynamicSymbol, LinkError, LinkErrorView, OutputSection, Relocation, RelocationTarget,
    RelocationView, SectionView, Symbol, SymbolView, TargetView,
};
use crate::text::{lemma_views_push, lemma_views_update, views};
use vstd::prelude::*;
use vstd::string::*;

verus! {

/// The section occupies memory at run time.
pub open spec fn is_alloc(flags: u64) -> bool {
    flags & SHF_ALLOC != 0
}

/// The section holds machine instructions.
pub open spec fn is_exec(flags: u64) -> bool {
    flags & SHF_EXECINSTR != 0
}

/// The section is writable at run time.
pub open spec fn is_write(flags: u64) -> bool {
    flags & SHF_WRITE != 0
}

/// The bytes that an input section adds to its output section: its data,
/// extended with zeros up to its size in memory.
pub open spec fn contribution(s: InputSectionView) -> Seq<u8> {
    if s.data.len() < s.size {
        s.data + zeros((s.size - s.data.len()) as nat)
    } else {
        s.data
    }
}

/// The size that the output section `name` had in `snap`, the output sections
/// as they stood before the current object; 0 where there was none.
pub open spec fn base_of(snap: Seq<SectionView>, name: Seq<char>) -> int {
    let p = position(section_names(snap), name);
    if p < snap.len() {
        snap[p].content.len() as int
    } else {
        0
    }
}

/// What a relocation of `obj` points at, in the output's terms. A relocation
/// against a section symbol points at that section, at the size it had before
/// this object; any other points at its symbol by name.
pub open spec fn resolve_target(
    snap: Seq<SectionView>,
    obj: InputObjectView,
    owner: Seq<char>,
    r: InputRelocation,
) -> Result<TargetView, LinkErrorView> {
    match r.symbol {
        None => Err(LinkErrorView::UnsupportedRelocation(owner)),
        Some(k) => if k >= obj.symbols.len() {
            Err(LinkErrorView::Malformed(obj.name))
        } else {
            let sym = obj.symbols[k as int];
            if sym.kind == InputSymbolKind::Section {
                match sym.place {
                    SymbolPlace::Section(si) => if si >= obj.sections.len() {
                        Err(LinkErrorView::Malformed(obj.name))
                    } else {
                        let target = obj.sections[si as int].name;
                        if base_of(snap, target) > u64::MAX {
                            Err(LinkErrorView::Malformed(obj.name))
                        } else {
                            Ok(TargetView::Section(target, base_of(snap, target) as u64))
                        }
                    },
                    _ => Err(LinkErrorView::UnsupportedSymbol(sym.name)),
                }
            } else {
                Ok(TargetView::Symbol(sym.name))
            }
        },
    }
}

/// The relocation `r` of the input section `owner`, with its place rebased
/// onto the output section of that name.
pub open spec fn rebase_one(
    snap: Seq<SectionView>,
    obj: InputObjectView,
    owner: Seq<char>,
    r: InputRelocation,
) -> Result<RelocationView, LinkErrorView> {
    match resolve_target(snap, obj, owner, r) {
        Err(e) => Err(e),
        Ok(target) => if r.offset + base_of(snap, owner) > u64::MAX {
            Err(LinkErrorView::Malformed(obj.name))
        } else {
            Ok(
                RelocationView {
                    offset: (r.offset + base_of(snap, owner)) as u64,
                    kind: r.kind,
                    encoding: r.encoding,
                    size: r.size,
                    addend: r.addend,
                    target,
                },
            )
        },
    }
}

/// `acc`, followed by the relocations `rs` from index `i` on, rebased; the
/// first failure where one fails.
pub open spec fn rebase_from(
    snap: Seq<SectionView>,
    obj: InputObjectView,
    owner: Seq<char>,
    rs: Seq<InputRelocation>,
    i: int,
    acc: Seq<RelocationView>,
) -> Result<Seq<RelocationView>, LinkErrorView>
    decreases rs.len() - i,
{
    if i < 0 || i >= rs.len() {
        Ok(acc)
    } else {
        match rebase_one(snap, obj, owner, rs[i]) {
            Err(e) => Err(e),
            Ok(r) => rebase_from(snap, obj, owner, rs, i + 1, acc.push(r)),
        }
    }
}

/// An output section that no input has contributed to yet.
pub open spec fn empty_section(name: Seq<char>) -> SectionView {
    SectionView {
        name,
        content: Seq::empty(),
        offset: 0,
        relocations: Seq::empty(),
        is_executable: false,
        is_writable: false,
        is_bss: false,
    }
}

/// The output section `before` with the input section `s` merged into it,
/// `relocations` being all its relocations afterwards.
pub open spec fn merged_section(
    before: SectionView,
    s: InputSectionView,
    relocations: Seq<RelocationView>,
) -> SectionView {
    SectionView {
        content: before.content + contribution(s),
        relocations,
        is_executable: before.is_executable || is_exec(s.flags),
        is_writable: before.is_writable || is_write(s.flags),
        is_bss: before.is_bss || s.is_bss,
        ..before
    }
}

/// The output sections after the input section `s` of `obj` is merged in. A
/// section without a name or without `SHF_ALLOC` changes nothing; any other is
/// appended to the output section of its name, which is created at the end
/// where there is none.
pub open spec fn merge_section(
    sections: Seq<SectionView>,
    snap: Seq<SectionView>,
    obj: InputObjectView,
    s: InputSectionView,
) -> Result<Seq<SectionView>, LinkErrorView> {
    if s.name.len() == 0 || !is_alloc(s.flags) {
        Ok(sections)
    } else if s.size > usize::MAX {
        Err(LinkErrorView::Malformed(obj.name))
    } else {
        let p = position(section_names(sections), s.name);
        let before = if p < sections.len() {
            sections[p]
        } else {
            empty_section(s.name)
        };
        match rebase_from(snap, obj, s.name, s.relocations, 0, before.relocations) {
            Err(e) => Err(e),
            Ok(relocations) => {
                let merged = merged_section(before, s, relocations);
                if p < sections.len() {
                    Ok(sections.update(p, merged))
                } else {
                    Ok(sections.push(merged))
                }
            },
        }
    }
}

/// The output sections after the sections of `obj` from index `i` on are
/// merged in, in order.
pub open spec fn merge_sections_from(
    sections: Seq<SectionView>,
    snap: Seq<SectionView>,
    obj: InputObjectView,
    i: int,
) -> Result<Seq<SectionView>, LinkErrorView>
    decreases obj.sections.len() - i,
{
    if i < 0 || i >= obj.sections.len() {
        Ok(sections)
    } else {
        match merge_section(sections, snap, obj, obj.sections[i]) {
            Err(e) => Err(e),
            Ok(next) => merge_sections_from(next, snap, obj, i + 1),
        }
    }
}

/// The symbol table with `s` entered: in the place of the symbol of the same
/// name where there is one, at the end otherwise.
pub open spec fn insert_symbol(symbols: Seq<SymbolView>, s: SymbolView) -> Seq<SymbolView> {
    let p = position(symbol_names(symbols), s.name);
    if p < symbols.len() {
        symbols.update(p, s)
    } else {
        symbols.push(s)
    }
}

/// The symbol table and the exported names.
pub ghost struct Defined {
    pub symbols: Seq<SymbolView>,
    pub exports: Seq<Seq<char>>,
}

/// An input symbol that defines nothing in the output: an undefined one, a
/// section symbol or a file symbol.
pub open spec fn is_skipped(sym: InputSymbolView) -> bool {
    sym.place == SymbolPlace::Undefined || sym.kind == InputSymbolKind::Section || sym.kind
        == InputSymbolKind::File
}

/// The symbol table and the exports after the input symbol `sym` of `obj` is
/// entered, when the output is a shared object or is not.
pub open spec fn define_symbol(
    d: Defined,
    snap: Seq<SectionView>,
    obj: InputObjectView,
    shared: bool,
    sym: InputSymbolView,
) -> Result<Defined, LinkErrorView> {
    if is_skipped(sym) {
        Ok(d)
    } else {
        match sym.place {
            SymbolPlace::Section(si) => if si >= obj.sections.len() {
                Err(LinkErrorView::Malformed(obj.name))
            } else {
                let section_name = obj.sections[si as int].name;
                if sym.address + base_of(snap, section_name) > u64::MAX {
                    Err(LinkErrorView::Malformed(obj.name))
                } else {
                    let entry = SymbolView {
                        name: sym.name,
                        section_name,
                        offset: (sym.address + base_of(snap, section_name)) as u64,
                        is_global: sym.is_global,
                        is_plt: false,
                    };
                    Ok(
                        Defined {
                            symbols: insert_symbol(d.symbols, entry),
                            exports: if sym.is_global && shared {
                                d.exports.push(sym.name)
                            } else {
                                d.exports
                            },
                        },
                    )
                }
            },
            _ => Err(LinkErrorView::UnsupportedSymbol(sym.name)),
        }
    }
}

/// The symbol table and the exports after the symbols of `obj` from index `i`
/// on are entered, in order.
pub open spec fn define_symbols_from(
    d: Defined,
    snap: Seq<SectionView>,
    obj: InputObjectView,
    shared: bool,
    i: int,
) -> Result<Defined, LinkErrorView>
    decreases obj.symbols.len() - i,
{
    if i < 0 || i >= obj.symbols.len() {
        Ok(d)
    } else {
        match define_symbol(d, snap, obj, shared, obj.symbols[i]) {
            Err(e) => Err(e),
            Ok(next) => define_symbols_from(next, snap, obj, shared, i + 1),
        }
    }
}

/// What accretion works on: the output sections, the symbol table and the
/// names exported to the dynamic symbol table.
pub ghost struct Accreted {
    pub sections: Seq<SectionView>,
    pub symbols: Seq<SymbolView>,
    pub exports: Seq<Seq<char>>,
}

/// The state after the relocatable object `obj` is merged into `before`. All
/// its sections are merged first, then its symbols are entered, the null
/// symbol at index 0 left out. Offsets of relocations and symbols are rebased
/// by the sizes that the output sections had in `before`.
pub open spec fn accreted(before: Accreted, obj: InputObjectView, shared: bool) -> Result<
    Accreted,
    LinkErrorView,
> {
    match merge_sections_from(before.sections, before.sections, obj, 0) {
        Err(e) => Err(e),
        Ok(sections) => match define_symbols_from(
            Defined { symbols: before.symbols, exports: before.exports },
            before.sections,
            obj,
            shared,
            1,
        ) {
            Err(e) => Err(e),
            Ok(d) => Ok(Accreted { sections, symbols: d.symbols, exports: d.exports }),
        },
    }
}

/// `sizes` holds the content sizes of `snap`, and `sections` still begins
/// with the sections of `snap`, by name.
pub open spec fn snapshot_of(
    snap: Seq<SectionView>,
    sizes: Seq<u64>,
    sections: Seq<SectionView>,
) -> bool {
    &&& snap.len() == sizes.len()
    &&& snap.len() <= sections.len()
    &&& forall|i: int|
        0 <= i < snap.len() ==> #[trigger] snap[i].name == sections[i].name && sizes[i]
            == snap[i].content.len()
}

proof fn lemma_base_of(
    snap: Seq<SectionView>,
    sizes: Seq<u64>,
    sections: Seq<SectionView>,
    name: Seq<char>,
)
    requires
        snapshot_of(snap, sizes, sections),
    ensures
        ({
            let p = position(section_names(sections), name);
            base_of(snap, name) == if p < snap.len() {
                sizes[p] as int
            } else {
                0
            }
        }),
{
    let p = position(section_names(sections), name);
    lemma_position(section_names(sections), name);
    if p < snap.len() {
        assert(snap[p].name == sections[p].name);
        assert(section_names(sections)[p] == name);
        assert forall|j: int| 0 <= j < p implies section_names(snap)[j] != name by {
            assert(snap[j].name == sections[j].name);
            assert(section_names(sections)[j] != name);
        }
        lemma_position_is(section_names(snap), name, p);
    } else {
        assert forall|j: int| 0 <= j < snap.len() implies section_names(snap)[j] != name by {
            assert(snap[j].name == sections[j].name);
            assert(section_names(sections)[j] != name);
        }
        lemma_position_is(section_names(snap), name, snap.len() as int);
    }
}

/// Looks up the size that the output section `name` had before the current
/// object.
fn snapshot_size(
    sections: &Vec<OutputSection>,
    sizes: &Vec<u64>,
    name: &str,
    Ghost(snap): Ghost<Seq<SectionView>>,
) -> (b: u64)
    requires
        snapshot_of(snap, sizes@, views(sections@)),
    ensures
        b == base_of(snap, name@),
{
    proof {
        lemma_base_of(snap, sizes@, views(sections@), name@);
    }
    let p = find_section(sections, name);
    if p < sizes.len() {
        sizes[p]
    } else {
        0
    }
}

/// Rebases one relocation of the input section `owner` of `obj`.
fn rebase_relocation(
    sections: &Vec<OutputSection>,
    sizes: &Vec<u64>,
    obj: &InputObject,
    owner: &str,
    r: &InputRelocation,
    Ghost(snap): Ghost<Seq<SectionView>>,
) -> (res: Result<Relocation, LinkError>)
    requires
        snapshot_of(snap, sizes@, views(sections@)),
    ensures
        match rebase_one(snap, obj@, owner@, *r) {
            Ok(v) => res is Ok && res->Ok_0@ == v,
            Err(e) => res is Err && res->Err_0@ == e,
        },
{
    let k = match r.symbol {
        None => {
            return Err(LinkError::UnsupportedRelocation(String::from_str(owner)));
        },
        Some(k) => k,
    };
    if k >= obj.symbols.len() {
        return Err(LinkError::Malformed(obj.name.clone()));
    }
    let sym = &obj.symbols[k];
    assert(obj@.symbols[k as int] == sym@);
    let target = if sym.kind == InputSymbolKind::Section {
        match sym.place {
            SymbolPlace::Section(si) => {
                if si >= obj.sections.len() {
                    return Err(LinkError::Malformed(obj.name.clone()));
                }
                let target_name = &obj.sections[si].name;
                assert(obj@.sections[si as int].name == target_name@);
                let base = snapshot_size(sections, sizes, target_name.as_str(), Ghost(snap));
                RelocationTarget::Section((target_name.clone(), base))
            },
            _ => {
                return Err(LinkError::UnsupportedSymbol(sym.name.clone()));
            },
        }
    } else {
        RelocationTarget::Symbol(sym.name.clone())
    };
    let base = snapshot_size(sections, sizes, owner, Ghost(snap));
    match r.offset.checked_add(base) {
        None => Err(LinkError::Malformed(obj.name.clone())),
        Some(offset) => Ok(
            Relocation {
                offset,
                kind: r.kind,
                encoding: r.encoding,
                size: r.size,
                addend: r.addend,
                target,
            },
        ),
    }
}

/// A fresh output section called `name`.
pub fn new_section(name: &str) -> (s: OutputSection)
    ensures
        s@ == empty_section(name@),
        s.section_index is None,
        s.name_string_id is None,
{
    let s = OutputSection {
        name: String::from_str(name),
        content: Vec::new(),
        offset: 0,
        relocations: Vec::new(),
        is_executable: false,
        is_writable: false,
        is_bss: false,
        section_index: None,
        name_string_id: None,
    };
    assert(s@.relocations =~= Seq::<RelocationView>::empty());
    s
}

/// Merges the input section `si` of `obj` into the output sections.
fn merge_input_section(
    sections: &mut Vec<OutputSection>,
    sizes: &Vec<u64>,
    obj: &InputObject,
    si: usize,
    Ghost(snap): Ghost<Seq<SectionView>>,
) -> (res: Result<(), LinkError>)
    requires
        si < obj.sections@.len(),
        snapshot_of(snap, sizes@, views(old(sections)@)),
    ensures
        match merge_section(views(old(sections)@), snap, obj@, obj@.sections[si as int]) {
            Ok(v) => res is Ok && views(final(sections)@) == v && snapshot_of(
                snap,
                sizes@,
                views(final(sections)@),
            ),
            Err(e) => res is Err && res->Err_0@ == e,
        },
{
    let s = &obj.sections[si];
    let ghost sv = obj@.sections[si as int];
    let ghost before_all = views(sections@);
    assert(sv == s@);
    if s.name.as_str().unicode_len() == 0 || s.flags & SHF_ALLOC == 0 {
        return Ok(());
    }
    if s.size > usize::MAX as u64 {
        return Err(LinkError::Malformed(obj.name.clone()));
    }
    let p = find_section(sections, s.name.as_str());
    if p == sections.len() {
        let fresh = new_section(s.name.as_str());
        proof {
            lemma_views_push(sections@, fresh);
        }
        sections.push(fresh);
    }
    let ghost before = views(sections@)[p as int];
    let ghost mid_all = views(sections@);
    assert(snapshot_of(snap, sizes@, mid_all)) by {
        assert forall|i: int| 0 <= i < snap.len() implies #[trigger] snap[i].name
            == mid_all[i].name by {
            assert(snap[i].name == before_all[i].name);
        }
    }
    // The relocations are rebased while the sections stand unchanged.
    let mut rebased: Vec<Relocation> = Vec::new();
    let n = s.relocations.len();
    let mut i: usize = 0;
    while i < n
        invariant
            i <= n,
            n == s.relocations@.len(),
            sv == s@,
            sv == obj@.sections[si as int],
            sv.name.len() != 0,
            is_alloc(sv.flags),
            sv.size <= usize::MAX,
            before_all == views(old(sections)@),
            p == position(section_names(before_all), sv.name),
            before == (if p < before_all.len() {
                before_all[p as int]
            } else {
                empty_section(sv.name)
            }),
            snapshot_of(snap, sizes@, views(sections@)),
            rebase_from(snap, obj@, sv.name, sv.relocations, 0, before.relocations)
                == rebase_from(
                snap,
                obj@,
                sv.name,
                sv.relocations,
                i as int,
                before.relocations + views(rebased@),
            ),
        decreases n - i,
    {
        match rebase_relocation(
            sections,
            sizes,
            obj,
            s.name.as_str(),
            &s.relocations[i],
            Ghost(snap),
        ) {
            Err(e) => {
                return Err(e);
            },
            Ok(r) => {
                proof {
                    lemma_views_push(rebased@, r);
                    assert((before.relocations + views(rebased@)).push(r@)
                        =~= before.relocations + views(rebased@).push(r@));
                }
                rebased.push(r);
            },
        }
        i += 1;
    }
    let ghost all_relocs = before.relocations + views(rebased@);
    let ghost old_seq = sections@;
    let mut out = sections.remove(p);
    append_bytes(&mut out.content, s.data.as_slice());
    if (s.data.len() as u64) < s.size {
        append_zeros(&mut out.content, (s.size - s.data.len() as u64) as usize);
    }
    out.is_executable = out.is_executable || (s.flags & SHF_EXECINSTR != 0);
    out.is_writable = out.is_writable || (s.flags & SHF_WRITE != 0);
    out.is_bss = out.is_bss || s.is_bss;
    let ghost old_relocs = out.relocations@;
    let ghost new_relocs = rebased@;
    out.relocations.append(&mut rebased);
    let ghost merged = out;
    proof {
        assert(views(old_relocs + new_relocs) =~= views(old_relocs) + views(new_relocs));
        assert(merged@.content =~= before.content + contribution(sv));
        assert(merged@ == merged_section(before, sv, all_relocs));
    }
    sections.insert(p, out);
    proof {
        assert(sections@ =~= old_seq.update(p as int, merged));
        lemma_views_update(old_seq, p as int, merged);
        if p < before_all.len() {
            assert(views(old_seq) == before_all);
        } else {
            assert(views(sections@) =~= before_all.push(merged@));
        }
        let after = views(sections@);
        assert(rebase_from(snap, obj@, sv.name, sv.relocations, 0, before.relocations) == Ok::<
            Seq<RelocationView>,
            LinkErrorView,
        >(all_relocs));
        assert(after == mid_all.update(p as int, merged@));
        if p < before_all.len() {
            assert(after == before_all.update(p as int, merged@));
        } else {
            assert(after == before_all.push(merged@));
        }
        assert(merge_section(before_all, snap, obj@, sv) == Ok::<Seq<SectionView>, LinkErrorView>(
            after,
        ));
        assert(snapshot_of(snap, sizes@, after));
        assert(merged@.name == mid_all[p as int].name);
        assert forall|i: int| 0 <= i < snap.len() implies #[trigger] snap[i].name
            == after[i].name && sizes@[i] == snap[i].content.len() by {
            assert(snap[i].name == mid_all[i].name);
        }
    }
    Ok(())
}

/// Enters `sym` into the symbol table; a symbol of the same name is replaced.
pub fn enter_symbol(symbols: &mut Vec<Symbol>, sym: Symbol)
    ensures
        views(final(symbols)@) == insert_symbol(views(old(symbols)@), sym@),
{
    let p = find_symbol(symbols, sym.name.as_str());
    proof {
        if p < symbols.len() {
            lemma_views_update(symbols@, p as int, sym);
        } else {
            lemma_views_push(symbols@, sym);
        }
    }
    if p < symbols.len() {
        symbols[p] = sym;
    } else {
        symbols.push(sym);
    }
}

/// Enters the input symbol `k` of `obj` into the symbol table.
fn define_input_symbol(
    symbols: &mut Vec<Symbol>,
    exports: &mut Vec<DynamicSymbol>,
    sections: &Vec<OutputSection>,
    sizes: &Vec<u64>,
    obj: &InputObject,
    k: usize,
    shared: bool,
    Ghost(snap): Ghost<Seq<SectionView>>,
) -> (res: Result<(), LinkError>)
    requires
        k < obj.symbols@.len(),
        snapshot_of(snap, sizes@, views(sections@)),
    ensures
        match define_symbol(
            Defined { symbols: views(old(symbols)@), exports: views(old(exports)@) },
            snap,
            obj@,
            shared,
            obj@.symbols[k as int],
        ) {
            Ok(d) => res is Ok && views(final(symbols)@) == d.symbols && views(final(exports)@)
                == d.exports,
            Err(e) => res is Err && res->Err_0@ == e,
        },
{
    let sym = &obj.symbols[k];
    assert(obj@.symbols[k as int] == sym@);
    if sym.place == SymbolPlace::Undefined || sym.kind == InputSymbolKind::Section || sym.kind
        == InputSymbolKind::File {
        return Ok(());
    }
    match sym.place {
        SymbolPlace::Section(si) => {
            if si >= obj.sections.len() {
                return Err(LinkError::Malformed(obj.name.clone()));
            }
            let section_name = &obj.sections[si].name;
            assert(obj@.sections[si as int].name == section_name@);
            let base = snapshot_size(sections, sizes, section_name.as_str(), Ghost(snap));
            match sym.address.checked_add(base) {
                None => Err(LinkError::Malformed(obj.name.clone())),
                Some(offset) => {
                    enter_symbol(
                        symbols,
                        Symbol {
                            name: sym.name.clone(),
                            section_name: section_name.clone(),
                            offset,
                            symbol_name_string_id: None,
                            symbol_name_dynamic_string_id: None,
                            is_global: sym.is_global,
                            is_plt: false,
                        },
                    );
                    if sym.is_global && shared {
                        let export = DynamicSymbol { name: sym.name.clone() };
                        proof {
                            lemma_views_push(exports@, export);
                        }
                        exports.push(export);
                    }
                    Ok(())
                },
            }
        },
        _ => Err(LinkError::UnsupportedSymbol(sym.name.clone())),
    }
}

/// Merges the relocatable object `obj` into the output sections, the symbol
/// table and, for a shared output, the exported names.
///
/// Offsets of the object's relocations and symbols are rebased by the sizes
/// that the output sections had before the call.
pub fn accrete(
    sections: &mut Vec<OutputSection>,
    symbols: &mut Vec<Symbol>,
    exports: &mut Vec<DynamicSymbol>,
    obj: &InputObject,
    shared: bool,
) -> (res: Result<(), LinkError>)
    ensures
        match accreted(
            Accreted {
                sections: views(old(sections)@),
                symbols: views(old(symbols)@),
                exports: views(old(exports)@),
            },
            obj@,
            shared,
        ) {
            Ok(a) => res is Ok && views(final(sections)@) == a.sections && views(
                final(symbols)@,
            ) == a.symbols && views(final(exports)@) == a.exports,
            Err(e) => res is Err && res->Err_0@ == e,
        },
{
    let ghost snap = views(sections@);
    let ghost symbols_before = views(symbols@);
    let ghost exports_before = views(exports@);
    let mut sizes: Vec<u64> = Vec::new();
    let count = sections.len();
    let mut j: usize = 0;
    while j < count
        invariant
            j <= count,
            count == sections@.len(),
            snap == views(sections@),
            sizes@.len() == j,
            forall|i: int| 0 <= i < j ==> sizes@[i] == snap[i].content.len(),
        decreases count - j,
    {
        sizes.push(sections[j].content.len() as u64);
        j += 1;
    }
    let n = obj.sections.len();
    let mut i: usize = 0;
    while i < n
        invariant
            i <= n,
            n == obj.sections@.len(),
            snapshot_of(snap, sizes@, views(sections@)),
            snap == views(old(sections)@),
            merge_sections_from(snap, snap, obj@, 0) == merge_sections_from(
                views(sections@),
                snap,
                obj@,
                i as int,
            ),
        decreases n - i,
    {
        match merge_input_section(sections, &sizes, obj, i, Ghost(snap)) {
            Err(e) => {
                return Err(e);
            },
            Ok(()) => {},
        }
        i += 1;
    }
    let ghost merged = views(sections@);
    let m = obj.symbols.len();
    let mut k: usize = 1;
    while k < m
        invariant
            1 <= k,
            m == obj.symbols@.len(),
            snapshot_of(snap, sizes@, views(sections@)),
            snap == views(old(sections)@),
            symbols_before == views(old(symbols)@),
            exports_before == views(old(exports)@),
            merged == views(sections@),
            merge_sections_from(snap, snap, obj@, 0) == Ok::<Seq<SectionView>, LinkErrorView>(
                merged,
            ),
            define_symbols_from(
                Defined { symbols: symbols_before, exports: exports_before },
                snap,
                obj@,
                shared,
                1,
            ) == define_symbols_from(
                Defined { symbols: views(symbols@), exports: views(exports@) },
                snap,
                obj@,
                shared,
                k as int,
            ),
        decreases m - k,
    {
        match define_input_symbol(symbols, exports, sections, &sizes, obj, k, shared, Ghost(snap)) {
            Err(e) => {
                return Err(e);
            },
            Ok(()) => {},
        }
        k += 1;
    }
    Ok(())
}

} // verus!
