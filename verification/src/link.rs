//! The linker: its state and the stages that carry it from parsed inputs to
//! the bytes of the output file.

use crate::accrete::{accrete, accreted, empty_section, enter_symbol, insert_symbol, Accreted};
use crate::bytes::append_bytes;
use crate::hash::{by_bucket, name_bytes, sort_by_bucket};
use crate::input::{InputObject, InputObjectView, InputSymbolView, SymbolPlace};
use crate::lookup::{find_section, position, section_names};
pub use crate::model::{
    DynamicSymbol, Needed, ObjectFile, OutputRelocationSection, OutputSection, Relocation,
    RelocationTarget, Symbol,
};
use crate::model::{LinkError, LinkErrorView, Rel, RelocationView, SectionView, SymbolView};
use crate::opt::{Opt, OptView};
pub use crate::pipeline::link;
use crate::plt::{can_synthesize, landmark, synthesize, synthesized};
use crate::relocate::{
    address_map, all_entries, apply_relocations, assign_addresses, relocated_from, same_layout,
    SectionAddress,
};
pub use crate::resolve::path_resolution;
use crate::text::{lemma_views_push, lemma_views_update, views};
use object::write::StringId;
use vstd::prelude::*;
use vstd::string::*;

verus! {

/// The state of one link.
#[derive(Debug)]
pub struct Linker {
    pub opt: Opt,
    /// The output sections, in the order in which they came up.
    pub output_sections: Vec<OutputSection>,
    /// The symbol table, in the order in which the names came up.
    pub symbols: Vec<Symbol>,
    /// The symbols imported from shared objects, in the order of discovery.
    pub plt_dynamic_symbols: Vec<DynamicSymbol>,
    /// The symbols exported by a shared output, by hash bucket.
    pub dynamic_symbols: Vec<DynamicSymbol>,
    /// The address of each section, once addresses are assigned.
    pub section_address: Vec<SectionAddress>,
    pub load_address: u64,
    pub dynamic_section_index: u32,
    pub dynamic_section_offset: u64,
    pub dynsym_section_index: u32,
    pub dynsym_section_offset: u64,
    pub dynstr_section_offset: u64,
    pub hash_section_offset: u64,
    pub gnu_hash_section_offset: u64,
    pub dynamic_entries_count: usize,
    pub soname_dynamic_string_index: Option<StringId>,
    /// A shared object is among the inputs.
    pub dynamic_link: bool,
    /// The shared objects among the inputs.
    pub needed: Vec<Needed>,
    /// The sections of dynamic relocations: `.rela.plt`, or none.
    pub output_relocations: Vec<OutputRelocationSection>,
}

/// What the inputs add up to.
pub ghost struct Gathered {
    pub sections: Seq<SectionView>,
    pub symbols: Seq<SymbolView>,
    pub imports: Seq<Seq<char>>,
    pub exports: Seq<Seq<char>>,
    pub dynamic_link: bool,
    pub needed: Seq<Seq<char>>,
    /// The sections of dynamic relocations: of each its name and its records.
    pub relocations: Seq<(Seq<char>, Seq<Rel>)>,
}

/// Of each section of dynamic relocations its name and its records.
pub open spec fn records_of(relas: Seq<OutputRelocationSection>) -> Seq<(Seq<char>, Seq<Rel>)> {
    Seq::new(relas.len(), |i: int| (relas[i].name@, relas[i].relocations@))
}

/// The sections of dynamic relocations of an output with the jump slots
/// `slots`: `.rela.plt` with those records, and no section where there is no
/// jump slot.
pub open spec fn jump_slot_sections(slots: Seq<Rel>) -> Seq<(Seq<char>, Seq<Rel>)> {
    if slots.len() > 0 {
        seq![(".rela.plt"@, slots)]
    } else {
        Seq::empty()
    }
}

/// Nothing gathered yet.
pub open spec fn nothing() -> Gathered {
    Gathered {
        sections: Seq::empty(),
        symbols: Seq::empty(),
        imports: Seq::empty(),
        exports: Seq::empty(),
        dynamic_link: false,
        needed: Seq::empty(),
        relocations: Seq::empty(),
    }
}

/// `acc`, followed by the names of the defined symbols among `symbols` from
/// index `k` on.
pub open spec fn imports_from(acc: Seq<Seq<char>>, symbols: Seq<InputSymbolView>, k: int) -> Seq<
    Seq<char>,
>
    decreases symbols.len() - k,
{
    if k < 0 || k >= symbols.len() {
        acc
    } else if symbols[k].place != SymbolPlace::Undefined {
        imports_from(acc.push(symbols[k].name), symbols, k + 1)
    } else {
        imports_from(acc, symbols, k + 1)
    }
}

/// What is gathered after one more input. A shared object is needed at run
/// time, and each symbol that it defines is imported; a relocatable object
/// is merged into the output.
pub open spec fn gather_one(g: Gathered, obj: InputObjectView, shared: bool) -> Result<
    Gathered,
    LinkErrorView,
> {
    if obj.is_dynamic {
        Ok(
            Gathered {
                dynamic_link: true,
                needed: g.needed.push(obj.name),
                imports: imports_from(g.imports, obj.dynamic_symbols, 1),
                ..g
            },
        )
    } else {
        match accreted(
            Accreted { sections: g.sections, symbols: g.symbols, exports: g.exports },
            obj,
            shared,
        ) {
            Err(e) => Err(e),
            Ok(a) => Ok(
                Gathered { sections: a.sections, symbols: a.symbols, exports: a.exports, ..g },
            ),
        }
    }
}

/// What is gathered after the inputs from index `i` on.
pub open spec fn gather_from(g: Gathered, objs: Seq<InputObjectView>, i: int, shared: bool)
    -> Result<Gathered, LinkErrorView>
    decreases objs.len() - i,
{
    if i < 0 || i >= objs.len() {
        Ok(g)
    } else {
        match gather_one(g, objs[i], shared) {
            Err(e) => Err(e),
            Ok(next) => gather_from(next, objs, i + 1, shared),
        }
    }
}

/// The section `.interp`: the path of the dynamic linker, ended by a zero
/// byte.
pub open spec fn interp_section(path: Seq<char>) -> SectionView {
    SectionView { content: name_bytes(path) + seq![0u8], ..empty_section(".interp"@) }
}

/// The output sections with `s` put in the place of the section of its name,
/// or at the end where there is none.
pub open spec fn put_section(sections: Seq<SectionView>, s: SectionView) -> Seq<SectionView> {
    let p = position(section_names(sections), s.name);
    if p < sections.len() {
        sections.update(p, s)
    } else {
        sections.push(s)
    }
}

/// What the synthesis stage makes of what was gathered. An output with a
/// dynamic section gets the symbol `_DYNAMIC`; the exports are ordered by
/// hash bucket; an output that imports from shared objects gets its linkage
/// tables, with the dynamic relocations made anew, and, unless it is a shared
/// object itself, `.interp`.
pub open spec fn finished(g: Gathered, opt: OptView) -> Result<Gathered, LinkErrorView> {
    let symbols = if opt.shared || g.dynamic_link {
        insert_symbol(g.symbols, landmark("_DYNAMIC"@, ".dynamic"@))
    } else {
        g.symbols
    };
    if g.exports.len() > u32::MAX {
        Err(LinkErrorView::Bug)
    } else if !g.dynamic_link {
        Ok(Gathered { symbols, exports: by_bucket(g.exports), relocations: Seq::empty(), ..g })
    } else if !can_synthesize(g.sections, g.imports.len()) {
        Err(LinkErrorView::Bug)
    } else {
        let made = synthesized(g.sections, symbols, g.imports);
        if opt.shared {
            Ok(
                Gathered {
                    sections: made.sections,
                    symbols: made.symbols,
                    exports: by_bucket(g.exports),
                    relocations: jump_slot_sections(made.jump_slots),
                    ..g
                },
            )
        } else {
            match opt.dynamic_linker {
                None => Err(LinkErrorView::Bug),
                Some(path) => Ok(
                    Gathered {
                        sections: put_section(made.sections, interp_section(path)),
                        symbols: made.symbols,
                        exports: by_bucket(g.exports),
                        relocations: jump_slot_sections(made.jump_slots),
                        ..g
                    },
                ),
            }
        }
    }
}

/// What the inputs `objs` add up to under the options `opt`.
pub open spec fn gathered(opt: OptView, objs: Seq<InputObjectView>) -> Result<
    Gathered,
    LinkErrorView,
> {
    match gather_from(nothing(), objs, 0, opt.shared) {
        Err(e) => Err(e),
        Ok(g) => finished(g, opt),
    }
}

impl Linker {
    /// What this linker has gathered.
    pub open spec fn gathered(&self) -> Gathered {
        Gathered {
            sections: views(self.output_sections@),
            symbols: views(self.symbols@),
            imports: views(self.plt_dynamic_symbols@),
            exports: views(self.dynamic_symbols@),
            dynamic_link: self.dynamic_link,
            needed: views(self.needed@),
            relocations: records_of(self.output_relocations@),
        }
    }

    /// A linker that has gathered nothing.
    pub fn new(opt: Opt) -> (linker: Linker)
        ensures
            linker.opt == opt,
            linker.gathered() == nothing(),
            linker.output_relocations@.len() == 0,
    {
        let linker = Linker {
            opt,
            output_sections: Vec::new(),
            symbols: Vec::new(),
            plt_dynamic_symbols: Vec::new(),
            dynamic_symbols: Vec::new(),
            section_address: Vec::new(),
            load_address: 0,
            dynamic_section_index: 0,
            dynamic_section_offset: 0,
            dynsym_section_index: 0,
            dynsym_section_offset: 0,
            dynstr_section_offset: 0,
            hash_section_offset: 0,
            gnu_hash_section_offset: 0,
            dynamic_entries_count: 0,
            soname_dynamic_string_index: None,
            dynamic_link: false,
            needed: Vec::new(),
            output_relocations: Vec::new(),
        };
        proof {
            assert(linker.gathered().sections =~= Seq::<SectionView>::empty());
            assert(linker.gathered().symbols =~= Seq::<SymbolView>::empty());
            assert(linker.gathered().imports =~= Seq::<Seq<char>>::empty());
            assert(linker.gathered().exports =~= Seq::<Seq<char>>::empty());
            assert(linker.gathered().needed =~= Seq::<Seq<char>>::empty());
            assert(linker.gathered().relocations =~= Seq::<(Seq<char>, Seq<Rel>)>::empty());
        }
        linker
    }

    /// Takes one more input in.
    pub fn add_object(&mut self, obj: &InputObject) -> (res: Result<(), LinkError>)
        ensures
            match gather_one(old(self).gathered(), obj@, old(self).opt.shared) {
                Ok(g) => res is Ok && final(self).gathered() == g,
                Err(e) => res is Err && res->Err_0@ == e,
            },
            final(self).opt == old(self).opt,
            final(self).output_relocations == old(self).output_relocations,
    {
        if obj.is_dynamic {
            self.dynamic_link = true;
            let needed = Needed { name: obj.name.clone(), name_string_id: None };
            proof {
                lemma_views_push(self.needed@, needed);
            }
            self.needed.push(needed);
            let ghost start = views(self.plt_dynamic_symbols@);
            let ghost symbols = obj@.dynamic_symbols;
            let n = obj.dynamic_symbols.len();
            let mut k: usize = 1;
            while k < n
                invariant
                    1 <= k,
                    n == obj.dynamic_symbols@.len(),
                    symbols == views(obj.dynamic_symbols@),
                    imports_from(start, symbols, 1) == imports_from(
                        views(self.plt_dynamic_symbols@),
                        symbols,
                        k as int,
                    ),
                    self.opt == old(self).opt,
                    self.output_relocations == old(self).output_relocations,
                    self.output_sections == old(self).output_sections,
                    self.symbols == old(self).symbols,
                    self.dynamic_symbols == old(self).dynamic_symbols,
                    self.dynamic_link,
                    views(self.needed@) == views(old(self).needed@).push(obj@.name),
                decreases n - k,
            {
                let symbol = &obj.dynamic_symbols[k];
                assert(symbols[k as int] == symbol@);
                if symbol.place != SymbolPlace::Undefined {
                    let import = DynamicSymbol { name: symbol.name.clone() };
                    proof {
                        lemma_views_push(self.plt_dynamic_symbols@, import);
                    }
                    self.plt_dynamic_symbols.push(import);
                }
                k += 1;
            }
            Ok(())
        } else {
            let shared = self.opt.shared;
            accrete(
                &mut self.output_sections,
                &mut self.symbols,
                &mut self.dynamic_symbols,
                obj,
                shared,
            )
        }
    }

    /// Takes the inputs in, in order.
    pub fn add_objects(&mut self, objs: &Vec<InputObject>) -> (res: Result<(), LinkError>)
        ensures
            match gather_from(old(self).gathered(), views(objs@), 0, old(self).opt.shared) {
                Ok(g) => res is Ok && final(self).gathered() == g,
                Err(e) => res is Err && res->Err_0@ == e,
            },
            final(self).opt == old(self).opt,
            final(self).output_relocations == old(self).output_relocations,
    {
        let n = objs.len();
        let mut i: usize = 0;
        while i < n
            invariant
                i <= n,
                n == objs@.len(),
                self.opt == old(self).opt,
                self.output_relocations == old(self).output_relocations,
                gather_from(old(self).gathered(), views(objs@), 0, old(self).opt.shared)
                    == gather_from(self.gathered(), views(objs@), i as int, old(self).opt.shared),
            decreases n - i,
        {
            assert(views(objs@)[i as int] == objs@[i as int]@);
            match self.add_object(&objs[i]) {
                Err(e) => {
                    return Err(e);
                },
                Ok(()) => {},
            }
            i += 1;
        }
        Ok(())
    }

    /// Makes what the output needs beyond its inputs: the symbol `_DYNAMIC`,
    /// the order of the exports, the linkage tables and `.interp`.
    pub fn synthesize(&mut self) -> (res: Result<(), LinkError>)
        ensures
            match finished(old(self).gathered(), old(self).opt@) {
                Ok(g) => res is Ok && final(self).gathered() == g,
                Err(e) => res is Err && res->Err_0@ == e,
            },
            final(self).opt == old(self).opt,
    {
        self.output_relocations = Vec::new();
        assert(records_of(self.output_relocations@) =~= Seq::<(Seq<char>, Seq<Rel>)>::empty());
        if self.opt.shared || self.dynamic_link {
            enter_symbol(
                &mut self.symbols,
                Symbol {
                    name: String::from_str("_DYNAMIC"),
                    section_name: String::from_str(".dynamic"),
                    offset: 0,
                    symbol_name_string_id: None,
                    symbol_name_dynamic_string_id: None,
                    is_global: false,
                    is_plt: false,
                },
            );
        }
        if self.dynamic_symbols.len() > u32::MAX as usize {
            return Err(LinkError::Bug);
        }
        self.dynamic_symbols = sort_by_bucket(&self.dynamic_symbols);
        if !self.dynamic_link {
            return Ok(());
        }
        let slots = match synthesize(
            &mut self.output_sections,
            &mut self.symbols,
            &self.plt_dynamic_symbols,
        ) {
            Err(e) => {
                return Err(e);
            },
            Ok(slots) => slots,
        };
        let ghost made = slots@;
        if slots.len() > 0 {
            self.output_relocations.push(
                OutputRelocationSection {
                    name: String::from_str(".rela.plt"),
                    relocations: slots,
                    offset: 0,
                    name_string_id: None,
                },
            );
        }
        assert(records_of(self.output_relocations@) =~= jump_slot_sections(made));
        if !self.opt.shared {
            let mut interp = OutputSection {
                name: String::from_str(".interp"),
                content: Vec::new(),
                offset: 0,
                relocations: Vec::new(),
                is_executable: false,
                is_writable: false,
                is_bss: false,
                section_index: None,
                name_string_id: None,
            };
            match &self.opt.dynamic_linker {
                None => {
                    return Err(LinkError::Bug);
                },
                Some(path) => {
                    append_bytes(&mut interp.content, path.as_str().as_bytes());
                },
            }
            interp.content.push(0);
            proof {
                assert(interp@.relocations =~= Seq::<RelocationView>::empty());
                assert(interp@.content =~= name_bytes(self.opt@.dynamic_linker->Some_0) + seq![
                    0u8,
                ]);
            }
            let p = find_section(&self.output_sections, ".interp");
            proof {
                if p < self.output_sections.len() {
                    lemma_views_update(self.output_sections@, p as int, interp);
                } else {
                    lemma_views_push(self.output_sections@, interp);
                }
            }
            if p < self.output_sections.len() {
                self.output_sections[p] = interp;
            } else {
                self.output_sections.push(interp);
            }
        }
        Ok(())
    }
}

impl Linker {
    /// This linker differs from `o` in nothing but the contents of its
    /// sections and the addresses.
    pub open spec fn relocated_of(&self, o: &Linker) -> bool {
        &&& self.opt == o.opt
        &&& self.symbols == o.symbols
        &&& self.plt_dynamic_symbols == o.plt_dynamic_symbols
        &&& self.dynamic_symbols == o.dynamic_symbols
        &&& self.load_address == o.load_address
        &&& self.dynamic_section_index == o.dynamic_section_index
        &&& self.dynamic_section_offset == o.dynamic_section_offset
        &&& self.dynsym_section_index == o.dynsym_section_index
        &&& self.dynsym_section_offset == o.dynsym_section_offset
        &&& self.dynstr_section_offset == o.dynstr_section_offset
        &&& self.hash_section_offset == o.hash_section_offset
        &&& self.gnu_hash_section_offset == o.gnu_hash_section_offset
        &&& self.dynamic_entries_count == o.dynamic_entries_count
        &&& self.soname_dynamic_string_index == o.soname_dynamic_string_index
        &&& self.dynamic_link == o.dynamic_link
        &&& self.needed == o.needed
        &&& self.output_relocations == o.output_relocations
        &&& same_layout(o.output_sections@, self.output_sections@)
    }

    /// The file offset of `.dynamic`, where the output has a dynamic section.
    pub open spec fn dynamic_place(&self) -> Option<u64> {
        if self.opt.shared || self.dynamic_link {
            Some(self.dynamic_section_offset)
        } else {
            None
        }
    }

    /// The address of every section of the output.
    pub open spec fn planned_addresses(&self) -> Seq<(Seq<char>, u64)> {
        all_entries(
            views(self.output_sections@),
            self.output_relocations@,
            self.dynamic_place(),
            self.load_address,
        )
    }

    /// The output sections with every relocation applied.
    pub open spec fn relocated_sections(&self) -> Result<Seq<SectionView>, LinkErrorView> {
        relocated_from(
            views(self.output_sections@),
            0,
            self.load_address,
            address_map(self.planned_addresses()),
            views(self.symbols@),
        )
    }

    /// Assigns every section its address and applies every relocation.
    pub fn relocate(&mut self) -> (res: Result<(), LinkError>)
        ensures
            match old(self).relocated_sections() {
                Ok(sections) => {
                    &&& res is Ok
                    &&& views(final(self).output_sections@) == sections
                    &&& final(self).relocated_of(old(self))
                    &&& views(final(self).section_address@) == old(self).planned_addresses()
                },
                Err(e) => res is Err && res->Err_0@ == e,
            },
    {
        let dynamic = if self.opt.shared || self.dynamic_link {
            Some(self.dynamic_section_offset)
        } else {
            None
        };
        self.section_address = assign_addresses(
            &self.output_sections,
            &self.output_relocations,
            dynamic,
            self.load_address,
        );
        apply_relocations(
            &mut self.output_sections,
            self.load_address,
            &self.section_address,
            &self.symbols,
        )
    }
}

} // verus!
