//! Address assignment and the evaluation of relocations.

use crate::bytes::{le32, le64};
use crate::lookup::{find_symbol, position, symbol_names};
use crate::model::{
    LinkError, LinkErrorView, OutputRelocationSection, OutputSection, Relocation,
    RelocationEncoding, RelocationKind, RelocationTarget, RelocationView, SectionView, Symbol,
    SymbolView, TargetView,
};
use crate::text::{lemma_views_update, same_text, views};
use vstd::prelude::*;
use vstd::string::*;

verus! {

/// The virtual address of one section of the output.
#[derive(Debug, Clone)]
pub struct SectionAddress {
    pub name: String,
    pub address: u64,
}

impl View for SectionAddress {
    type V = (Seq<char>, u64);

    open spec fn view(&self) -> (Seq<char>, u64) {
        (self.name@, self.address)
    }
}

/// The map from section names to addresses that a list of entries stands
/// for: a later entry replaces an earlier one of the same name.
pub open spec fn address_map(entries: Seq<(Seq<char>, u64)>) -> Map<Seq<char>, u64>
    decreases entries.len(),
{
    if entries.len() == 0 {
        Map::empty()
    } else {
        address_map(entries.drop_last()).insert(entries.last().0, entries.last().1)
    }
}

/// Looks up the address of the section called `name`.
pub fn section_address(addresses: &Vec<SectionAddress>, name: &str) -> (r: Option<u64>)
    ensures
        r is Some == address_map(views(addresses@)).dom().contains(name@),
        r is Some ==> r->Some_0 == address_map(views(addresses@))[name@],
{
    let ghost entries = views(addresses@);
    let n = addresses.len();
    let mut found: Option<u64> = None;
    let mut i: usize = 0;
    assert(entries.take(0) =~= Seq::<(Seq<char>, u64)>::empty());
    while i < n
        invariant
            i <= n,
            n == addresses@.len(),
            entries == views(addresses@),
            found is Some == address_map(entries.take(i as int)).dom().contains(name@),
            found is Some ==> found->Some_0 == address_map(entries.take(i as int))[name@],
        decreases n - i,
    {
        proof {
            assert(entries.take(i + 1).drop_last() =~= entries.take(i as int));
            assert(entries.take(i + 1).last() == addresses@[i as int]@);
        }
        if same_text(addresses[i].name.as_str(), name) {
            found = Some(addresses[i].address);
        }
        i += 1;
    }
    assert(entries.take(n as int) =~= entries);
    found
}

/// The addresses of the output sections: load address plus file offset, in
/// 64 bits.
pub open spec fn section_entries(sections: Seq<SectionView>, load: u64) -> Seq<(Seq<char>, u64)> {
    Seq::new(sections.len(), |i: int| (sections[i].name, load.wrapping_add(sections[i].offset)))
}

/// The addresses of the sections of dynamic relocations.
pub open spec fn rela_entries(relas: Seq<OutputRelocationSection>, load: u64) -> Seq<
    (Seq<char>, u64),
> {
    Seq::new(relas.len(), |i: int| (relas[i].name@, load.wrapping_add(relas[i].offset)))
}

/// The address entries of a whole output: the output sections, then the
/// sections of dynamic relocations, then `.dynamic` where the output has one.
pub open spec fn all_entries(
    sections: Seq<SectionView>,
    relas: Seq<OutputRelocationSection>,
    dynamic: Option<u64>,
    load: u64,
) -> Seq<(Seq<char>, u64)> {
    let base = section_entries(sections, load) + rela_entries(relas, load);
    match dynamic {
        Some(offset) => base.push((".dynamic"@, load.wrapping_add(offset))),
        None => base,
    }
}

/// Computes the address of every section of the output. `dynamic` is the
/// file offset of `.dynamic` where the output has one.
pub fn assign_addresses(
    sections: &Vec<OutputSection>,
    relas: &Vec<OutputRelocationSection>,
    dynamic: Option<u64>,
    load: u64,
) -> (addresses: Vec<SectionAddress>)
    ensures
        views(addresses@) == all_entries(views(sections@), relas@, dynamic, load),
{
    let mut addresses: Vec<SectionAddress> = Vec::new();
    let n = sections.len();
    let mut i: usize = 0;
    while i < n
        invariant
            i <= n,
            n == sections@.len(),
            views(addresses@) =~= section_entries(views(sections@), load).take(i as int),
        decreases n - i,
    {
        let entry = SectionAddress {
            name: sections[i].name.clone(),
            address: load.wrapping_add(sections[i].offset),
        };
        proof {
            let all = section_entries(views(sections@), load);
            assert(entry@ == all[i as int]);
            assert(views(addresses@.push(entry)) =~= views(addresses@).push(entry@));
            assert(all.take(i + 1) =~= all.take(i as int).push(all[i as int]));
        }
        addresses.push(entry);
        i += 1;
    }
    let m = relas.len();
    let mut j: usize = 0;
    while j < m
        invariant
            j <= m,
            m == relas@.len(),
            views(addresses@) =~= section_entries(views(sections@), load) + rela_entries(
                relas@,
                load,
            ).take(j as int),
        decreases m - j,
    {
        let entry = SectionAddress {
            name: relas[j].name.clone(),
            address: load.wrapping_add(relas[j].offset),
        };
        proof {
            let all = rela_entries(relas@, load);
            assert(entry@ == all[j as int]);
            assert(views(addresses@.push(entry)) =~= views(addresses@).push(entry@));
            assert(all.take(j + 1) =~= all.take(j as int).push(all[j as int]));
        }
        addresses.push(entry);
        j += 1;
    }
    assert(rela_entries(relas@, load).take(m as int) =~= rela_entries(relas@, load));
    match dynamic {
        Some(offset) => {
            addresses.push(
                SectionAddress {
                    name: String::from_str(".dynamic"),
                    address: load.wrapping_add(offset),
                },
            );
            assert(views(addresses@) =~= all_entries(views(sections@), relas@, dynamic, load));
        },
        None => {},
    }
    addresses
}

/// The address that a relocation target stands for: a section's address plus
/// the recorded size, or the address of a symbol's section plus the symbol's
/// offset, in 64 bits.
pub open spec fn target_address(
    addresses: Map<Seq<char>, u64>,
    symbols: Seq<SymbolView>,
    target: TargetView,
) -> Result<u64, LinkErrorView> {
    match target {
        TargetView::Section(name, offset) => if addresses.dom().contains(name) {
            Ok(addresses[name].wrapping_add(offset))
        } else {
            Err(LinkErrorView::Undefined(name))
        },
        TargetView::Symbol(name) => {
            let p = position(symbol_names(symbols), name);
            if p >= symbols.len() {
                Err(LinkErrorView::Undefined(name))
            } else if !addresses.dom().contains(symbols[p].section_name) {
                Err(LinkErrorView::Undefined(symbols[p].section_name))
            } else {
                Ok(addresses[symbols[p].section_name].wrapping_add(symbols[p].offset))
            }
        },
    }
}

/// Resolves a relocation target to its address.
pub fn resolve(addresses: &Vec<SectionAddress>, symbols: &Vec<Symbol>, target: &RelocationTarget)
    -> (res: Result<u64, LinkError>)
    ensures
        match target_address(address_map(views(addresses@)), views(symbols@), target@) {
            Ok(a) => res is Ok && res->Ok_0 == a,
            Err(e) => res is Err && res->Err_0@ == e,
        },
{
    match target {
        RelocationTarget::Section(pair) => match section_address(addresses, pair.0.as_str()) {
            Some(base) => Ok(base.wrapping_add(pair.1)),
            None => Err(LinkError::Undefined(pair.0.clone())),
        },
        RelocationTarget::Symbol(name) => {
            let p = find_symbol(symbols, name.as_str());
            if p >= symbols.len() {
                return Err(LinkError::Undefined(name.clone()));
            }
            let symbol = &symbols[p];
            assert(views(symbols@)[p as int] == symbol@);
            match section_address(addresses, symbol.section_name.as_str()) {
                Some(base) => Ok(base.wrapping_add(symbol.offset)),
                None => Err(LinkError::Undefined(symbol.section_name.clone())),
            }
        },
    }
}

/// The number of bytes that a relocation patches; `None` for a relocation
/// that the linker cannot evaluate.
pub open spec fn patch_width(r: RelocationView) -> Option<nat> {
    match (r.kind, r.encoding, r.size) {
        (RelocationKind::Absolute, RelocationEncoding::Generic, 64) => Some(8),
        (RelocationKind::Absolute, RelocationEncoding::X86Signed, 32) => Some(4),
        (RelocationKind::PltRelative, RelocationEncoding::Generic, 32) => Some(4),
        (RelocationKind::Relative, RelocationEncoding::Generic, 32) => Some(4),
        _ => None,
    }
}

/// The value of a relocation with target address `s` at the place `p`, in
/// 64 bits: `S + A` for an absolute one, `S + A - P` for the others.
pub open spec fn patch_value(r: RelocationView, s: u64, p: u64) -> u64 {
    match r.kind {
        RelocationKind::Absolute => s.wrapping_add_signed(r.addend),
        _ => s.wrapping_add_signed(r.addend).wrapping_sub(p),
    }
}

/// The bytes that a relocation writes: its value, or the low 32 bits of it,
/// least significant byte first.
pub open spec fn patch_bytes(r: RelocationView, s: u64, p: u64) -> Seq<u8> {
    if patch_width(r) == Some(8nat) {
        le64(patch_value(r, s, p))
    } else {
        le32(patch_value(r, s, p) as u32)
    }
}

/// `content` with `bytes` written over it from index `at` on.
pub open spec fn patched(content: Seq<u8>, at: int, bytes: Seq<u8>) -> Seq<u8> {
    Seq::new(
        content.len(),
        |i: int|
            if at <= i < at + bytes.len() {
                bytes[i - at]
            } else {
                content[i]
            },
    )
}

/// The content of a section after one of its relocations is applied. `base`
/// is the address of the section, `owner` its name.
pub open spec fn apply_one(
    content: Seq<u8>,
    r: RelocationView,
    base: u64,
    owner: Seq<char>,
    addresses: Map<Seq<char>, u64>,
    symbols: Seq<SymbolView>,
) -> Result<Seq<u8>, LinkErrorView> {
    match target_address(addresses, symbols, r.target) {
        Err(e) => Err(e),
        Ok(s) => match patch_width(r) {
            None => Err(LinkErrorView::UnsupportedRelocation(owner)),
            Some(width) => if r.offset + width > content.len() {
                Err(LinkErrorView::Malformed(owner))
            } else {
                Ok(
                    patched(
                        content,
                        r.offset as int,
                        patch_bytes(r, s, base.wrapping_add(r.offset)),
                    ),
                )
            },
        },
    }
}

/// The content of a section after its relocations from index `i` on are
/// applied, in order.
pub open spec fn apply_from(
    content: Seq<u8>,
    relocations: Seq<RelocationView>,
    i: int,
    base: u64,
    owner: Seq<char>,
    addresses: Map<Seq<char>, u64>,
    symbols: Seq<SymbolView>,
) -> Result<Seq<u8>, LinkErrorView>
    decreases relocations.len() - i,
{
    if i < 0 || i >= relocations.len() {
        Ok(content)
    } else {
        match apply_one(content, relocations[i], base, owner, addresses, symbols) {
            Err(e) => Err(e),
            Ok(next) => apply_from(next, relocations, i + 1, base, owner, addresses, symbols),
        }
    }
}

/// A section with all its relocations applied to its content.
pub open spec fn relocated_section(
    section: SectionView,
    load: u64,
    addresses: Map<Seq<char>, u64>,
    symbols: Seq<SymbolView>,
) -> Result<SectionView, LinkErrorView> {
    match apply_from(
        section.content,
        section.relocations,
        0,
        load.wrapping_add(section.offset),
        section.name,
        addresses,
        symbols,
    ) {
        Err(e) => Err(e),
        Ok(content) => Ok(SectionView { content, ..section }),
    }
}

/// The output sections with the relocations of those from index `i` on
/// applied, section by section.
pub open spec fn relocated_from(
    sections: Seq<SectionView>,
    i: int,
    load: u64,
    addresses: Map<Seq<char>, u64>,
    symbols: Seq<SymbolView>,
) -> Result<Seq<SectionView>, LinkErrorView>
    decreases sections.len() - i,
{
    if i < 0 || i >= sections.len() {
        Ok(sections)
    } else {
        match relocated_section(sections[i], load, addresses, symbols) {
            Err(e) => Err(e),
            Ok(section) => relocated_from(
                sections.update(i, section),
                i + 1,
                load,
                addresses,
                symbols,
            ),
        }
    }
}

/// Two lists of sections that differ in content only, and not in its length.
pub open spec fn same_layout(a: Seq<OutputSection>, b: Seq<OutputSection>) -> bool {
    &&& a.len() == b.len()
    &&& forall|i: int|
        0 <= i < a.len() ==> {
            &&& (#[trigger] a[i]).name == b[i].name
            &&& a[i].offset == b[i].offset
            &&& a[i].section_index == b[i].section_index
            &&& a[i].name_string_id == b[i].name_string_id
            &&& a[i].content@.len() == b[i].content@.len()
            &&& a[i].is_bss == b[i].is_bss
            &&& a[i].is_executable == b[i].is_executable
            &&& a[i].is_writable == b[i].is_writable
        }
}

/// Writes `bytes` over `content` from index `at` on.
fn overwrite(content: &mut Vec<u8>, at: usize, bytes: &Vec<u8>)
    requires
        at + bytes@.len() <= old(content)@.len(),
    ensures
        final(content)@ == patched(old(content)@, at as int, bytes@),
{
    let n = bytes.len();
    let total = content.len();
    let mut j: usize = 0;
    while j < n
        invariant
            j <= n,
            n == bytes@.len(),
            total == content@.len(),
            at + n <= content@.len(),
            content@.len() == old(content)@.len(),
            forall|i: int|
                0 <= i < content@.len() ==> content@[i] == if at <= i < at + j {
                    bytes@[i - at]
                } else {
                    old(content)@[i]
                },
        decreases n - j,
    {
        content[at + j] = bytes[j];
        j += 1;
    }
    assert(content@ =~= patched(old(content)@, at as int, bytes@));
}

/// The eight bytes of `x`, least significant first.
fn bytes_le64(x: u64) -> (v: Vec<u8>)
    ensures
        v@ == le64(x),
{
    let mut v: Vec<u8> = Vec::new();
    v.push((x & 0xff) as u8);
    v.push(((x >> 8) & 0xff) as u8);
    v.push(((x >> 16) & 0xff) as u8);
    v.push(((x >> 24) & 0xff) as u8);
    v.push(((x >> 32) & 0xff) as u8);
    v.push(((x >> 40) & 0xff) as u8);
    v.push(((x >> 48) & 0xff) as u8);
    v.push(((x >> 56) & 0xff) as u8);
    assert(v@ =~= le64(x));
    v
}

/// The four bytes of `x`, least significant first.
fn bytes_le32(x: u32) -> (v: Vec<u8>)
    ensures
        v@ == le32(x),
{
    let mut v: Vec<u8> = Vec::new();
    v.push((x & 0xff) as u8);
    v.push(((x >> 8) & 0xff) as u8);
    v.push(((x >> 16) & 0xff) as u8);
    v.push(((x >> 24) & 0xff) as u8);
    assert(v@ =~= le32(x));
    v
}

/// Applies one relocation to the content of its section.
pub fn apply_relocation(
    content: &mut Vec<u8>,
    r: &Relocation,
    base: u64,
    owner: &str,
    addresses: &Vec<SectionAddress>,
    symbols: &Vec<Symbol>,
) -> (res: Result<(), LinkError>)
    ensures
        match apply_one(
            old(content)@,
            r@,
            base,
            owner@,
            address_map(views(addresses@)),
            views(symbols@),
        ) {
            Ok(c) => res is Ok && final(content)@ == c,
            Err(e) => res is Err && res->Err_0@ == e,
        },
{
    let s = match resolve(addresses, symbols, &r.target) {
        Err(e) => {
            return Err(e);
        },
        Ok(s) => s,
    };
    let p = base.wrapping_add(r.offset);
    let wide = match (r.kind, r.encoding, r.size) {
        (RelocationKind::Absolute, RelocationEncoding::Generic, 64) => true,
        (RelocationKind::Absolute, RelocationEncoding::X86Signed, 32) => false,
        (RelocationKind::PltRelative, RelocationEncoding::Generic, 32) => false,
        (RelocationKind::Relative, RelocationEncoding::Generic, 32) => false,
        _ => {
            return Err(LinkError::UnsupportedRelocation(String::from_str(owner)));
        },
    };
    let value = match r.kind {
        RelocationKind::Absolute => s.wrapping_add_signed(r.addend),
        _ => s.wrapping_add_signed(r.addend).wrapping_sub(p),
    };
    let bytes = if wide {
        bytes_le64(value)
    } else {
        bytes_le32(value as u32)
    };
    let len = content.len();
    if r.offset > len as u64 || (len as u64) - r.offset < bytes.len() as u64 {
        return Err(LinkError::Malformed(String::from_str(owner)));
    }
    overwrite(content, r.offset as usize, &bytes);
    Ok(())
}

/// Applies the relocations of every output section to its content.
///
/// On success the sections differ from what they were in content only.
pub fn apply_relocations(
    sections: &mut Vec<OutputSection>,
    load: u64,
    addresses: &Vec<SectionAddress>,
    symbols: &Vec<Symbol>,
) -> (res: Result<(), LinkError>)
    ensures
        match relocated_from(
            views(old(sections)@),
            0,
            load,
            address_map(views(addresses@)),
            views(symbols@),
        ) {
            Ok(s) => res is Ok && views(final(sections)@) == s && same_layout(
                old(sections)@,
                final(sections)@,
            ),
            Err(e) => res is Err && res->Err_0@ == e,
        },
{
    let ghost map = address_map(views(addresses@));
    let ghost syms = views(symbols@);
    let n = sections.len();
    let mut i: usize = 0;
    while i < n
        invariant
            i <= n,
            n == sections@.len(),
            map == address_map(views(addresses@)),
            syms == views(symbols@),
            same_layout(old(sections)@, sections@),
            relocated_from(views(old(sections)@), 0, load, map, syms) == relocated_from(
                views(sections@),
                i as int,
                load,
                map,
                syms,
            ),
        decreases n - i,
    {
        let ghost before_all = sections@;
        let mut section = sections.remove(i);
        let ghost before = section;
        assert(views(before_all)[i as int] == before@);
        let base = load.wrapping_add(section.offset);
        let m = section.relocations.len();
        let mut j: usize = 0;
        while j < m
            invariant
                j <= m,
                m == section.relocations@.len(),
                map == address_map(views(addresses@)),
                syms == views(symbols@),
                section.relocations == before.relocations,
                section.name == before.name,
                section.offset == before.offset,
                section.section_index == before.section_index,
                section.name_string_id == before.name_string_id,
                section.is_bss == before.is_bss,
                section.is_executable == before.is_executable,
                section.is_writable == before.is_writable,
                section.content@.len() == before.content@.len(),
                base == load.wrapping_add(before.offset),
                before_all == sections@.insert(i as int, before),
                i < before_all.len(),
                n == before_all.len(),
                same_layout(old(sections)@, before_all),
                relocated_from(views(old(sections)@), 0, load, map, syms) == relocated_from(
                    views(before_all),
                    i as int,
                    load,
                    map,
                    syms,
                ),
                before@ == views(before_all)[i as int],
                apply_from(
                    before@.content,
                    before@.relocations,
                    0,
                    base,
                    before@.name,
                    map,
                    syms,
                ) == apply_from(
                    section.content@,
                    before@.relocations,
                    j as int,
                    base,
                    before@.name,
                    map,
                    syms,
                ),
            decreases m - j,
        {
            assert(before@.relocations[j as int] == section.relocations@[j as int]@);
            match apply_relocation(
                &mut section.content,
                &section.relocations[j],
                base,
                section.name.as_str(),
                addresses,
                symbols,
            ) {
                Err(e) => {
                    return Err(e);
                },
                Ok(()) => {},
            }
            j += 1;
        }
        let ghost after = section;
        proof {
            assert(after@ == (SectionView { content: after.content@, ..before@ }));
            lemma_views_update(before_all, i as int, after);
        }
        sections.insert(i, section);
        proof {
            assert(sections@ =~= before_all.update(i as int, after));
            assert forall|k: int| 0 <= k < n implies {
                &&& (#[trigger] old(sections)@[k]).name == sections@[k].name
                &&& old(sections)@[k].offset == sections@[k].offset
                &&& old(sections)@[k].section_index == sections@[k].section_index
                &&& old(sections)@[k].name_string_id == sections@[k].name_string_id
                &&& old(sections)@[k].content@.len() == sections@[k].content@.len()
                &&& old(sections)@[k].is_bss == sections@[k].is_bss
                &&& old(sections)@[k].is_executable == sections@[k].is_executable
                &&& old(sections)@[k].is_writable == sections@[k].is_writable
            } by {
                assert(old(sections)@[k].name == before_all[k].name);
            }
        }
        i += 1;
    }
    Ok(())
}

} // verus!
