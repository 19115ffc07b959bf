//! What the inputs add up to: laws that hold of all the inputs of a link
//! together, each proved from the laws of the single steps.

use crate::accrete::{
    accreted, base_of, contribution, define_symbol, define_symbols_from, empty_section,
    insert_symbol, is_skipped, merge_section, merge_sections_from, rebase_from, rebase_one,
    Accreted, Defined,
};
use crate::input::{InputObjectView, InputRelocation, InputSectionView, InputSymbolView};
use crate::laws::{
    content_of, contributed, has_sound_symbols, is_merged, is_output_section, lemma_accreted_sizes,
    lemma_contributed_at_least, lemma_merge_appends, lemma_symbol_rebased, within_sections,
};
use crate::link::{
    finished, gather_from, gather_one, interp_section, nothing, put_section, Gathered,
};
use crate::lookup::{lemma_position, lemma_position_is, position, section_names, symbol_names};
use crate::model::{RelocationView, SectionView, SymbolView, TargetView};
use crate::opt::OptView;
use crate::plt::{got_section, landmark, lemma_table_sizes, plt_section, stub_symbol, with_stubs};
use vstd::prelude::*;

verus! {

/// The bytes that the sections of `obj` from index `i` on add to the output
/// section called `name`, in the order of the sections.
pub open spec fn object_bytes(obj: InputObjectView, name: Seq<char>, i: int) -> Seq<u8>
    decreases obj.sections.len() - i,
{
    if i < 0 || i >= obj.sections.len() {
        Seq::empty()
    } else {
        (if is_merged(obj.sections[i]) && obj.sections[i].name == name {
            contribution(obj.sections[i])
        } else {
            Seq::empty()
        }) + object_bytes(obj, name, i + 1)
    }
}

/// The bytes that the inputs from index `i` on add to the output section
/// called `name`, in the order of the inputs. A shared object adds nothing.
pub open spec fn input_bytes(objs: Seq<InputObjectView>, name: Seq<char>, i: int) -> Seq<u8>
    decreases objs.len() - i,
{
    if i < 0 || i >= objs.len() {
        Seq::empty()
    } else {
        (if objs[i].is_dynamic {
            Seq::empty()
        } else {
            object_bytes(objs[i], name, 0)
        }) + input_bytes(objs, name, i + 1)
    }
}

/// Merging the sections of an object from index `i` on appends to each
/// output section what those sections add to it.
proof fn lemma_object_appends(
    sections: Seq<SectionView>,
    snap: Seq<SectionView>,
    obj: InputObjectView,
    i: int,
    name: Seq<char>,
)
    requires
        0 <= i,
        merge_sections_from(sections, snap, obj, i) is Ok,
    ensures
        content_of(merge_sections_from(sections, snap, obj, i)->Ok_0, name) == content_of(
            sections,
            name,
        ) + object_bytes(obj, name, i),
    decreases obj.sections.len() - i,
{
    let before = content_of(sections, name);
    if i < obj.sections.len() {
        let next = merge_section(sections, snap, obj, obj.sections[i])->Ok_0;
        let step = if is_merged(obj.sections[i]) && obj.sections[i].name == name {
            contribution(obj.sections[i])
        } else {
            Seq::empty()
        };
        lemma_merge_appends(sections, snap, obj, obj.sections[i], name);
        lemma_object_appends(next, snap, obj, i + 1, name);
        assert((before + step) + object_bytes(obj, name, i + 1) =~= before + (step + object_bytes(
            obj,
            name,
            i + 1,
        )));
    } else {
        assert(before + Seq::<u8>::empty() =~= before);
    }
}

/// Gathering the inputs from index `i` on appends to each output section
/// what those inputs add to it.
proof fn lemma_inputs_append(
    g: Gathered,
    objs: Seq<InputObjectView>,
    i: int,
    shared: bool,
    name: Seq<char>,
)
    requires
        0 <= i,
        gather_from(g, objs, i, shared) is Ok,
    ensures
        content_of(gather_from(g, objs, i, shared)->Ok_0.sections, name) == content_of(
            g.sections,
            name,
        ) + input_bytes(objs, name, i),
    decreases objs.len() - i,
{
    let before = content_of(g.sections, name);
    if i < objs.len() {
        let next = gather_one(g, objs[i], shared)->Ok_0;
        let step = if objs[i].is_dynamic {
            Seq::empty()
        } else {
            object_bytes(objs[i], name, 0)
        };
        if !objs[i].is_dynamic {
            lemma_object_appends(g.sections, g.sections, objs[i], 0, name);
        } else {
            assert(before + Seq::<u8>::empty() =~= before);
        }
        lemma_inputs_append(next, objs, i + 1, shared, name);
        assert((before + step) + input_bytes(objs, name, i + 1) =~= before + (step + input_bytes(
            objs,
            name,
            i + 1,
        )));
    } else {
        assert(before + Seq::<u8>::empty() =~= before);
    }
}

/// Every output section holds what the inputs add to it, in the order of the
/// inputs, and nothing else; so it is as long as their contributions add up
/// to.
pub proof fn lemma_sections_are_the_contributions(
    objs: Seq<InputObjectView>,
    shared: bool,
    name: Seq<char>,
)
    requires
        gather_from(nothing(), objs, 0, shared) is Ok,
    ensures
        content_of(gather_from(nothing(), objs, 0, shared)->Ok_0.sections, name) == input_bytes(
            objs,
            name,
            0,
        ),
        base_of(gather_from(nothing(), objs, 0, shared)->Ok_0.sections, name) == input_bytes(
            objs,
            name,
            0,
        ).len(),
{
    lemma_inputs_append(nothing(), objs, 0, shared, name);
    assert(position(section_names(nothing().sections), name) == 0);
    assert(Seq::<u8>::empty() + input_bytes(objs, name, 0) =~= input_bytes(objs, name, 0));
}

/// Merging an input section keeps every output section, and makes the
/// section of its name one, where it is merged.
proof fn lemma_merge_keeps_sections(
    sections: Seq<SectionView>,
    snap: Seq<SectionView>,
    obj: InputObjectView,
    s: InputSectionView,
    name: Seq<char>,
)
    requires
        merge_section(sections, snap, obj, s) is Ok,
    ensures
        is_output_section(sections, name) ==> is_output_section(
            merge_section(sections, snap, obj, s)->Ok_0,
            name,
        ),
        is_merged(s) ==> is_output_section(merge_section(sections, snap, obj, s)->Ok_0, s.name),
{
    let next = merge_section(sections, snap, obj, s)->Ok_0;
    if is_merged(s) {
        let names = section_names(sections);
        let p = position(names, s.name);
        lemma_position(names, s.name);
        lemma_position(names, name);
        let q = position(names, name);
        if p < sections.len() {
            assert(section_names(next) =~= names);
        } else {
            assert(section_names(next) =~= names.push(s.name));
            assert(section_names(next).drop_last() =~= names);
            lemma_position_is(section_names(next), s.name, sections.len() as int);
            if q < sections.len() {
                lemma_position_is(section_names(next), name, q);
            }
        }
    }
}

/// Merging the sections of an object from index `i` on keeps every output
/// section, and makes the section of the name of each of them that is
/// merged one.
proof fn lemma_object_keeps_sections(
    sections: Seq<SectionView>,
    snap: Seq<SectionView>,
    obj: InputObjectView,
    i: int,
    name: Seq<char>,
)
    requires
        0 <= i,
        merge_sections_from(sections, snap, obj, i) is Ok,
    ensures
        is_output_section(sections, name) ==> is_output_section(
            merge_sections_from(sections, snap, obj, i)->Ok_0,
            name,
        ),
        forall|j: int|
            i <= j < obj.sections.len() && is_merged(#[trigger] obj.sections[j])
                && obj.sections[j].name == name ==> is_output_section(
                merge_sections_from(sections, snap, obj, i)->Ok_0,
                name,
            ),
    decreases obj.sections.len() - i,
{
    if i < obj.sections.len() {
        let next = merge_section(sections, snap, obj, obj.sections[i])->Ok_0;
        lemma_merge_keeps_sections(sections, snap, obj, obj.sections[i], name);
        lemma_object_keeps_sections(next, snap, obj, i + 1, name);
    }
}

/// Every symbol that lies in an output section of `last` lies in an output
/// section of `now`, and not beyond its end.
pub open spec fn settled(now: Seq<SectionView>, symbols: Seq<SymbolView>, last: Seq<SectionView>)
    -> bool {
    forall|k: int|
        0 <= k < symbols.len() && is_output_section(last, (#[trigger] symbols[k]).section_name)
            ==> is_output_section(now, symbols[k].section_name) && symbols[k].offset <= base_of(
            now,
            symbols[k].section_name,
        )
}

/// Entering the symbols of an object from index `i` on keeps the symbols
/// settled in the sections `after`, which hold what the object contributes.
proof fn lemma_defined_settled(
    d: Defined,
    snap: Seq<SectionView>,
    obj: InputObjectView,
    shared: bool,
    i: int,
    after: Seq<SectionView>,
    last: Seq<SectionView>,
)
    requires
        1 <= i,
        define_symbols_from(d, snap, obj, shared, i) is Ok,
        settled(after, d.symbols, last),
        has_sound_symbols(obj, last),
        forall|name: Seq<char>|
            #[trigger] base_of(after, name) == base_of(snap, name) + contributed(obj, name, 0),
        forall|j: int|
            0 <= j < obj.sections.len() && is_merged(#[trigger] obj.sections[j])
                ==> is_output_section(after, obj.sections[j].name),
    ensures
        settled(after, define_symbols_from(d, snap, obj, shared, i)->Ok_0.symbols, last),
    decreases obj.symbols.len() - i,
{
    if i < obj.symbols.len() {
        let sym = obj.symbols[i];
        let next = define_symbol(d, snap, obj, shared, sym)->Ok_0;
        if !is_skipped(sym) {
            let si = sym.place->Section_0 as int;
            let name = obj.sections[si].name;
            if is_merged(obj.sections[si]) {
                lemma_contributed_at_least(obj, 0, si);
            }
            assert(base_of(after, name) == base_of(snap, name) + contributed(obj, name, 0));
            let p = position(symbol_names(d.symbols), sym.name);
            lemma_position(symbol_names(d.symbols), sym.name);
            assert forall|k: int|
                0 <= k < next.symbols.len() && is_output_section(
                    last,
                    (#[trigger] next.symbols[k]).section_name,
                ) implies is_output_section(after, next.symbols[k].section_name)
                && next.symbols[k].offset <= base_of(after, next.symbols[k].section_name) by {
                if k != p {
                    assert(next.symbols[k] == d.symbols[k]);
                }
            }
        }
        lemma_defined_settled(next, snap, obj, shared, i + 1, after, last);
    }
}

/// Gathering the inputs from index `i` on, which ends with the sections
/// `last`, leaves the symbols settled in `last`.
proof fn lemma_gathered_settled(
    g: Gathered,
    objs: Seq<InputObjectView>,
    i: int,
    shared: bool,
    last: Seq<SectionView>,
)
    requires
        0 <= i,
        gather_from(g, objs, i, shared) is Ok,
        gather_from(g, objs, i, shared)->Ok_0.sections == last,
        settled(g.sections, g.symbols, last),
        forall|k: int|
            i <= k < objs.len() && !(#[trigger] objs[k]).is_dynamic ==> has_sound_symbols(
                objs[k],
                last,
            ),
    ensures
        settled(last, gather_from(g, objs, i, shared)->Ok_0.symbols, last),
    decreases objs.len() - i,
{
    if i < objs.len() {
        let obj = objs[i];
        let next = gather_one(g, obj, shared)->Ok_0;
        if !obj.is_dynamic {
            let before = Accreted { sections: g.sections, symbols: g.symbols, exports: g.exports };
            let after = accreted(before, obj, shared)->Ok_0;
            assert forall|name: Seq<char>| #[trigger]
                base_of(after.sections, name) == base_of(g.sections, name) + contributed(
                    obj,
                    name,
                    0,
                ) by {
                lemma_accreted_sizes(before, obj, shared, name);
            }
            assert forall|j: int|
                0 <= j < obj.sections.len() && is_merged(
                    #[trigger] obj.sections[j],
                ) implies is_output_section(after.sections, obj.sections[j].name) by {
                lemma_object_keeps_sections(g.sections, g.sections, obj, 0, obj.sections[j].name);
            }
            assert(settled(after.sections, g.symbols, last)) by {
                assert forall|k: int|
                    0 <= k < g.symbols.len() && is_output_section(
                        last,
                        (#[trigger] g.symbols[k]).section_name,
                    ) implies is_output_section(after.sections, g.symbols[k].section_name)
                    && g.symbols[k].offset <= base_of(
                    after.sections,
                    g.symbols[k].section_name,
                ) by {
                    let name = g.symbols[k].section_name;
                    lemma_object_keeps_sections(g.sections, g.sections, obj, 0, name);
                    lemma_accreted_sizes(before, obj, shared, name);
                }
            }
            lemma_defined_settled(
                Defined { symbols: g.symbols, exports: g.exports },
                g.sections,
                obj,
                shared,
                1,
                after.sections,
                last,
            );
        }
        lemma_gathered_settled(next, objs, i + 1, shared, last);
    }
}

/// No symbol lies beyond the end of its output section, whatever the
/// inputs: where every input symbol lies within its input section, every
/// symbol of the symbol table that lies in an output section lies within
/// it. What is left out is a clash of names: an input symbol in a section
/// that is kept out of the output, while the output has a section of that
/// name.
pub proof fn lemma_symbols_within_sections(objs: Seq<InputObjectView>, shared: bool)
    requires
        gather_from(nothing(), objs, 0, shared) is Ok,
        forall|k: int|
            0 <= k < objs.len() && !(#[trigger] objs[k]).is_dynamic ==> has_sound_symbols(
                objs[k],
                gather_from(nothing(), objs, 0, shared)->Ok_0.sections,
            ),
    ensures
        within_sections(
            gather_from(nothing(), objs, 0, shared)->Ok_0.sections,
            gather_from(nothing(), objs, 0, shared)->Ok_0.symbols,
        ),
{
    let last = gather_from(nothing(), objs, 0, shared)->Ok_0;
    lemma_gathered_settled(nothing(), objs, 0, shared, last.sections);
}

/// The relocations of the output section called `name`; none where there is
/// no such section.
pub open spec fn relocations_of(sections: Seq<SectionView>, name: Seq<char>) -> Seq<
    RelocationView,
> {
    let p = position(section_names(sections), name);
    if p < sections.len() {
        sections[p].relocations
    } else {
        Seq::empty()
    }
}

/// The list `b` begins with the list `a`.
pub open spec fn keeps(a: Seq<RelocationView>, b: Seq<RelocationView>) -> bool {
    &&& a.len() <= b.len()
    &&& forall|k: int| 0 <= k < a.len() ==> b[k] == a[k]
}

/// Rebasing appends: the list begins with what it began with, and holds each
/// relocation from index `i` on, rebased.
proof fn lemma_rebased_are_kept(
    snap: Seq<SectionView>,
    obj: InputObjectView,
    owner: Seq<char>,
    rs: Seq<InputRelocation>,
    i: int,
    acc: Seq<RelocationView>,
    m: int,
)
    requires
        0 <= i,
        rebase_from(snap, obj, owner, rs, i, acc) is Ok,
    ensures
        keeps(acc, rebase_from(snap, obj, owner, rs, i, acc)->Ok_0),
        i <= m < rs.len() ==> rebase_one(snap, obj, owner, rs[m]) is Ok && rebase_from(
            snap,
            obj,
            owner,
            rs,
            i,
            acc,
        )->Ok_0.contains(rebase_one(snap, obj, owner, rs[m])->Ok_0),
    decreases rs.len() - i,
{
    if i < rs.len() {
        let r = rebase_one(snap, obj, owner, rs[i])->Ok_0;
        let all = rebase_from(snap, obj, owner, rs, i, acc)->Ok_0;
        lemma_rebased_are_kept(snap, obj, owner, rs, i + 1, acc.push(r), m);
        assert forall|k: int| 0 <= k < acc.len() implies all[k] == acc[k] by {
            assert(acc.push(r)[k] == acc[k]);
        }
        if m == i {
            assert(all[acc.len() as int] == acc.push(r)[acc.len() as int]);
        }
    }
}

/// Merging an input section keeps the relocations of every output section,
/// and adds its own, rebased, to the section of its name.
proof fn lemma_merge_keeps_relocations(
    sections: Seq<SectionView>,
    snap: Seq<SectionView>,
    obj: InputObjectView,
    s: InputSectionView,
    name: Seq<char>,
    m: int,
)
    requires
        merge_section(sections, snap, obj, s) is Ok,
    ensures
        keeps(
            relocations_of(sections, name),
            relocations_of(merge_section(sections, snap, obj, s)->Ok_0, name),
        ),
        is_merged(s) && 0 <= m < s.relocations.len() ==> rebase_one(
            snap,
            obj,
            s.name,
            s.relocations[m],
        ) is Ok && relocations_of(merge_section(sections, snap, obj, s)->Ok_0, s.name).contains(
            rebase_one(snap, obj, s.name, s.relocations[m])->Ok_0,
        ),
{
    let next = merge_section(sections, snap, obj, s)->Ok_0;
    if is_merged(s) {
        let names = section_names(sections);
        let p = position(names, s.name);
        lemma_position(names, s.name);
        lemma_position(names, name);
        let q = position(names, name);
        let before = if p < sections.len() {
            sections[p]
        } else {
            empty_section(s.name)
        };
        lemma_rebased_are_kept(snap, obj, s.name, s.relocations, 0, before.relocations, m);
        if p < sections.len() {
            assert(section_names(next) =~= names);
            if q == p {
                assert(names[q] == name);
            }
        } else {
            assert(section_names(next) =~= names.push(s.name));
            assert(section_names(next).drop_last() =~= names);
            lemma_position_is(section_names(next), s.name, sections.len() as int);
            if s.name != name {
                lemma_position_is(
                    section_names(next),
                    name,
                    if q < sections.len() {
                        q
                    } else {
                        next.len() as int
                    },
                );
            }
        }
    }
}

/// Merging the sections of an object from index `i` on keeps the relocations
/// of every output section, and adds those of the section of index `j`,
/// rebased, to the output section of its name.
proof fn lemma_object_keeps_relocations(
    sections: Seq<SectionView>,
    snap: Seq<SectionView>,
    obj: InputObjectView,
    i: int,
    name: Seq<char>,
    j: int,
    m: int,
)
    requires
        0 <= i,
        merge_sections_from(sections, snap, obj, i) is Ok,
    ensures
        keeps(
            relocations_of(sections, name),
            relocations_of(merge_sections_from(sections, snap, obj, i)->Ok_0, name),
        ),
        i <= j < obj.sections.len() && is_merged(obj.sections[j]) && 0 <= m
            < obj.sections[j].relocations.len() ==> rebase_one(
            snap,
            obj,
            obj.sections[j].name,
            obj.sections[j].relocations[m],
        ) is Ok && relocations_of(
            merge_sections_from(sections, snap, obj, i)->Ok_0,
            obj.sections[j].name,
        ).contains(
            rebase_one(snap, obj, obj.sections[j].name, obj.sections[j].relocations[m])->Ok_0,
        ),
    decreases obj.sections.len() - i,
{
    if i < obj.sections.len() {
        let next = merge_section(sections, snap, obj, obj.sections[i])->Ok_0;
        let last = merge_sections_from(sections, snap, obj, i)->Ok_0;
        lemma_merge_keeps_relocations(sections, snap, obj, obj.sections[i], name, m);
        lemma_object_keeps_relocations(next, snap, obj, i + 1, name, j, m);
        if i <= j < obj.sections.len() && is_merged(obj.sections[j]) && 0 <= m
            < obj.sections[j].relocations.len() {
            let owner = obj.sections[j].name;
            let x = rebase_one(snap, obj, owner, obj.sections[j].relocations[m])->Ok_0;
            if j == i {
                lemma_merge_keeps_relocations(sections, snap, obj, obj.sections[i], owner, m);
                lemma_object_keeps_relocations(next, snap, obj, i + 1, owner, j, m);
                let mid = relocations_of(next, owner);
                let k = choose|k: int| 0 <= k < mid.len() && mid[k] == x;
                assert(relocations_of(last, owner)[k] == x);
            }
        }
    }
}

/// Gathering the inputs from index `i` on keeps the relocations of every
/// output section.
proof fn lemma_inputs_keep_relocations(
    g: Gathered,
    objs: Seq<InputObjectView>,
    i: int,
    shared: bool,
    name: Seq<char>,
)
    requires
        0 <= i,
        gather_from(g, objs, i, shared) is Ok,
    ensures
        keeps(
            relocations_of(g.sections, name),
            relocations_of(gather_from(g, objs, i, shared)->Ok_0.sections, name),
        ),
    decreases objs.len() - i,
{
    if i < objs.len() {
        let next = gather_one(g, objs[i], shared)->Ok_0;
        if !objs[i].is_dynamic {
            lemma_object_keeps_relocations(g.sections, g.sections, objs[i], 0, name, 0, 0);
        }
        lemma_inputs_keep_relocations(next, objs, i + 1, shared, name);
    }
}

/// Gathering the inputs from index `i` on is gathering those before index
/// `k` and then the others.
proof fn lemma_gather_in_two(
    g: Gathered,
    objs: Seq<InputObjectView>,
    i: int,
    k: int,
    shared: bool,
)
    requires
        0 <= i <= k <= objs.len(),
        gather_from(g, objs, i, shared) is Ok,
    ensures
        gather_from(g, objs.take(k), i, shared) is Ok,
        gather_from(gather_from(g, objs.take(k), i, shared)->Ok_0, objs, k, shared) == gather_from(
            g,
            objs,
            i,
            shared,
        ),
    decreases k - i,
{
    if i < k {
        assert(objs.take(k)[i] == objs[i]);
        let next = gather_one(g, objs[i], shared)->Ok_0;
        lemma_gather_in_two(next, objs, i + 1, k, shared);
    }
}

/// A relocation is recorded once and for all. The relocation of index `m`
/// of a merged section of a relocatable input is among the relocations of
/// the output section of that name, whatever the later inputs add. Its
/// place is its place in the input section plus the size that the output
/// section had before this input, and where it points at a section it
/// points at it with the size that this section had before this input:
/// what the inputs before this one added to it.
pub proof fn lemma_relocation_is_recorded(
    objs: Seq<InputObjectView>,
    shared: bool,
    k: int,
    j: int,
    m: int,
)
    requires
        gather_from(nothing(), objs, 0, shared) is Ok,
        0 <= k < objs.len(),
        !objs[k].is_dynamic,
        0 <= j < objs[k].sections.len(),
        is_merged(objs[k].sections[j]),
        0 <= m < objs[k].sections[j].relocations.len(),
    ensures
        ({
            let obj = objs[k];
            let owner = obj.sections[j].name;
            let r = obj.sections[j].relocations[m];
            let before = gather_from(nothing(), objs.take(k), 0, shared);
            let recorded = rebase_one(before->Ok_0.sections, obj, owner, r);
            &&& before is Ok
            &&& recorded is Ok
            &&& relocations_of(
                gather_from(nothing(), objs, 0, shared)->Ok_0.sections,
                owner,
            ).contains(recorded->Ok_0)
            &&& recorded->Ok_0.offset == r.offset + input_bytes(objs.take(k), owner, 0).len()
            &&& recorded->Ok_0.kind == r.kind
            &&& recorded->Ok_0.encoding == r.encoding
            &&& recorded->Ok_0.size == r.size
            &&& recorded->Ok_0.addend == r.addend
            &&& match recorded->Ok_0.target {
                TargetView::Section(target, size) => size == input_bytes(
                    objs.take(k),
                    target,
                    0,
                ).len(),
                TargetView::Symbol(_) => true,
            }
        }),
{
    let obj = objs[k];
    let owner = obj.sections[j].name;
    let r = obj.sections[j].relocations[m];
    lemma_gather_in_two(nothing(), objs, 0, k, shared);
    let g = gather_from(nothing(), objs.take(k), 0, shared)->Ok_0;
    let last = gather_from(nothing(), objs, 0, shared)->Ok_0;
    let next = gather_one(g, obj, shared)->Ok_0;
    lemma_object_keeps_relocations(g.sections, g.sections, obj, 0, owner, j, m);
    let recorded = rebase_one(g.sections, obj, owner, r)->Ok_0;
    lemma_inputs_keep_relocations(next, objs, k + 1, shared, owner);
    let mid = relocations_of(next.sections, owner);
    let at = choose|at: int| 0 <= at < mid.len() && mid[at] == recorded;
    assert(relocations_of(last.sections, owner)[at] == recorded);
    lemma_sections_are_the_contributions(objs.take(k), shared, owner);
    match recorded.target {
        TargetView::Section(target, size) => {
            lemma_sections_are_the_contributions(objs.take(k), shared, target);
        },
        TargetView::Symbol(_) => {},
    }
}

/// The symbol called `name`, where the symbol table has one.
pub open spec fn symbol_of(symbols: Seq<SymbolView>, name: Seq<char>) -> Option<SymbolView> {
    let p = position(symbol_names(symbols), name);
    if p < symbols.len() {
        Some(symbols[p])
    } else {
        None
    }
}

/// The object defines a symbol called `name` at index `from` or behind it.
pub open spec fn defines(obj: InputObjectView, name: Seq<char>, from: int) -> bool {
    exists|i: int|
        from <= i < obj.symbols.len() && !is_skipped(#[trigger] obj.symbols[i])
            && obj.symbols[i].name == name
}

/// Entering a symbol of another name leaves the symbol called `name` as it
/// is.
proof fn lemma_define_keeps(
    d: Defined,
    snap: Seq<SectionView>,
    obj: InputObjectView,
    shared: bool,
    sym: InputSymbolView,
    name: Seq<char>,
)
    requires
        define_symbol(d, snap, obj, shared, sym) is Ok,
        is_skipped(sym) || sym.name != name,
    ensures
        symbol_of(define_symbol(d, snap, obj, shared, sym)->Ok_0.symbols, name) == symbol_of(
            d.symbols,
            name,
        ),
{
    if !is_skipped(sym) {
        let after = define_symbol(d, snap, obj, shared, sym)->Ok_0.symbols;
        let names = symbol_names(d.symbols);
        let p = position(names, sym.name);
        let q = position(names, name);
        lemma_position(names, sym.name);
        lemma_position(names, name);
        if p < d.symbols.len() {
            assert(symbol_names(after) =~= names);
        } else {
            assert(symbol_names(after) =~= names.push(sym.name));
            assert(symbol_names(after).drop_last() =~= names);
            lemma_position_is(
                symbol_names(after),
                name,
                if q < d.symbols.len() {
                    q
                } else {
                    after.len() as int
                },
            );
        }
    }
}

/// Entering the symbols of an object from index `i` on, none of which is
/// called `name`, leaves the symbol called `name` as it is.
proof fn lemma_defined_keep(
    d: Defined,
    snap: Seq<SectionView>,
    obj: InputObjectView,
    shared: bool,
    i: int,
    name: Seq<char>,
)
    requires
        0 <= i,
        define_symbols_from(d, snap, obj, shared, i) is Ok,
        !defines(obj, name, i),
    ensures
        symbol_of(define_symbols_from(d, snap, obj, shared, i)->Ok_0.symbols, name) == symbol_of(
            d.symbols,
            name,
        ),
    decreases obj.symbols.len() - i,
{
    if i < obj.symbols.len() {
        let sym = obj.symbols[i];
        let next = define_symbol(d, snap, obj, shared, sym)->Ok_0;
        assert(is_skipped(sym) || sym.name != name);
        lemma_define_keeps(d, snap, obj, shared, sym, name);
        assert(!defines(obj, name, i + 1)) by {
            if defines(obj, name, i + 1) {
                let w = choose|w: int|
                    i + 1 <= w < obj.symbols.len() && !is_skipped(#[trigger] obj.symbols[w])
                        && obj.symbols[w].name == name;
                assert(i <= w < obj.symbols.len() && !is_skipped(obj.symbols[w]));
            }
        }
        lemma_defined_keep(next, snap, obj, shared, i + 1, name);
    }
}

/// The symbol that an object leaves under a name is the last that it defines
/// under that name, rebased by the size of its section before the object.
proof fn lemma_defined_last(
    d: Defined,
    snap: Seq<SectionView>,
    obj: InputObjectView,
    shared: bool,
    from: int,
    i: int,
)
    requires
        0 <= from <= i < obj.symbols.len(),
        define_symbols_from(d, snap, obj, shared, from) is Ok,
        !is_skipped(obj.symbols[i]),
        !defines(obj, obj.symbols[i].name, i + 1),
    ensures
        obj.symbols[i].place is Section,
        symbol_of(
            define_symbols_from(d, snap, obj, shared, from)->Ok_0.symbols,
            obj.symbols[i].name,
        ) == Some(
            SymbolView {
                name: obj.symbols[i].name,
                section_name: obj.sections[obj.symbols[i].place->Section_0 as int].name,
                offset: (obj.symbols[i].address + base_of(
                    snap,
                    obj.sections[obj.symbols[i].place->Section_0 as int].name,
                )) as u64,
                is_global: obj.symbols[i].is_global,
                is_plt: false,
            },
        ),
    decreases i - from,
{
    let sym = obj.symbols[from];
    let next = define_symbol(d, snap, obj, shared, sym)->Ok_0;
    if from < i {
        lemma_defined_last(next, snap, obj, shared, from + 1, i);
    } else {
        lemma_symbol_rebased(d, snap, obj, shared, sym);
        lemma_defined_keep(next, snap, obj, shared, i + 1, sym.name);
    }
}

/// Gathering the inputs from index `i` on, none of which defines a symbol
/// called `name`, leaves the symbol called `name` as it is.
proof fn lemma_inputs_keep_symbol(
    g: Gathered,
    objs: Seq<InputObjectView>,
    i: int,
    shared: bool,
    name: Seq<char>,
)
    requires
        0 <= i,
        gather_from(g, objs, i, shared) is Ok,
        forall|k: int|
            i <= k < objs.len() && !(#[trigger] objs[k]).is_dynamic ==> !defines(objs[k], name, 1),
    ensures
        symbol_of(gather_from(g, objs, i, shared)->Ok_0.symbols, name) == symbol_of(
            g.symbols,
            name,
        ),
    decreases objs.len() - i,
{
    if i < objs.len() {
        let next = gather_one(g, objs[i], shared)->Ok_0;
        if !objs[i].is_dynamic {
            lemma_defined_keep(
                Defined { symbols: g.symbols, exports: g.exports },
                g.sections,
                objs[i],
                shared,
                1,
                name,
            );
        }
        lemma_inputs_keep_symbol(next, objs, i + 1, shared, name);
    }
}

/// The last definition of a name wins, and it is rebased once and for all.
/// Where the symbol of index `i` of a relocatable input is the last that
/// any input defines under its name, the symbol table holds under that name
/// a symbol in the output section of the name of its input section, at its
/// value plus what the inputs before this one added to that output section.
pub proof fn lemma_symbol_is_recorded(objs: Seq<InputObjectView>, shared: bool, k: int, i: int)
    requires
        gather_from(nothing(), objs, 0, shared) is Ok,
        0 <= k < objs.len(),
        !objs[k].is_dynamic,
        1 <= i < objs[k].symbols.len(),
        !is_skipped(objs[k].symbols[i]),
        !defines(objs[k], objs[k].symbols[i].name, i + 1),
        forall|l: int|
            k < l < objs.len() && !(#[trigger] objs[l]).is_dynamic ==> !defines(
                objs[l],
                objs[k].symbols[i].name,
                1,
            ),
    ensures
        ({
            let sym = objs[k].symbols[i];
            let section = objs[k].sections[sym.place->Section_0 as int];
            &&& sym.place is Section
            &&& symbol_of(gather_from(nothing(), objs, 0, shared)->Ok_0.symbols, sym.name) == Some(
                SymbolView {
                    name: sym.name,
                    section_name: section.name,
                    offset: (sym.address + input_bytes(objs.take(k), section.name, 0).len()) as u64,
                    is_global: sym.is_global,
                    is_plt: false,
                },
            )
        }),
{
    let obj = objs[k];
    let sym = obj.symbols[i];
    lemma_gather_in_two(nothing(), objs, 0, k, shared);
    let g = gather_from(nothing(), objs.take(k), 0, shared)->Ok_0;
    let next = gather_one(g, obj, shared)->Ok_0;
    lemma_defined_last(
        Defined { symbols: g.symbols, exports: g.exports },
        g.sections,
        obj,
        shared,
        1,
        i,
    );
    lemma_inputs_keep_symbol(next, objs, k + 1, shared, sym.name);
    lemma_sections_are_the_contributions(
        objs.take(k),
        shared,
        obj.sections[sym.place->Section_0 as int].name,
    );
}

/// The output sections with one more at the end, of a new name, are the
/// sections that they were, and that one.
proof fn lemma_pushed_section(sections: Seq<SectionView>, s: SectionView, name: Seq<char>)
    requires
        !is_output_section(sections, s.name),
    ensures
        is_output_section(sections.push(s), s.name),
        base_of(sections.push(s), s.name) == s.content.len(),
        name != s.name ==> is_output_section(sections.push(s), name) == is_output_section(
            sections,
            name,
        ) && base_of(sections.push(s), name) == base_of(sections, name),
{
    let names = section_names(sections);
    let next = section_names(sections.push(s));
    assert(next =~= names.push(s.name));
    assert(next.drop_last() =~= names);
    lemma_position(names, s.name);
    lemma_position(names, name);
    lemma_position_is(next, s.name, sections.len() as int);
    if name != s.name {
        let q = position(names, name);
        lemma_position_is(
            next,
            name,
            if q < sections.len() {
                q
            } else {
                sections.len() as int + 1
            },
        );
    }
}

/// The output sections with one put in the place of the section of its name
/// are, for every other name, the sections that they were.
proof fn lemma_put_section(sections: Seq<SectionView>, s: SectionView, name: Seq<char>)
    requires
        name != s.name,
    ensures
        is_output_section(put_section(sections, s), name) == is_output_section(sections, name),
        base_of(put_section(sections, s), name) == base_of(sections, name),
{
    let names = section_names(sections);
    let p = position(names, s.name);
    lemma_position(names, s.name);
    lemma_position(names, name);
    if p < sections.len() {
        assert(section_names(put_section(sections, s)) =~= names);
    } else {
        lemma_pushed_section(sections, s, name);
    }
}

/// A symbol that lies within its section, entered into a symbol table
/// whose symbols lie within their sections, leaves it so.
proof fn lemma_insert_within(sections: Seq<SectionView>, symbols: Seq<SymbolView>, s: SymbolView)
    requires
        within_sections(sections, symbols),
        is_output_section(sections, s.section_name) ==> s.offset <= base_of(
            sections,
            s.section_name,
        ),
    ensures
        within_sections(sections, insert_symbol(symbols, s)),
{
    let after = insert_symbol(symbols, s);
    let p = position(symbol_names(symbols), s.name);
    lemma_position(symbol_names(symbols), s.name);
    assert forall|k: int|
        0 <= k < after.len() && is_output_section(
            sections,
            (#[trigger] after[k]).section_name,
        ) implies after[k].offset <= base_of(sections, after[k].section_name) by {
        if k != p {
            assert(after[k] == symbols[k]);
        }
    }
}

/// The stubs of the imports lie within a section `.plt` that has room for
/// them.
proof fn lemma_stubs_within(
    sections: Seq<SectionView>,
    symbols: Seq<SymbolView>,
    imports: Seq<Seq<char>>,
    k: nat,
)
    requires
        within_sections(sections, symbols),
        k <= imports.len() < u32::MAX,
        base_of(sections, ".plt"@) == 16 + 16 * imports.len(),
    ensures
        within_sections(sections, with_stubs(symbols, imports, k)),
    decreases k,
{
    if k > 0 {
        lemma_stubs_within(sections, symbols, imports, (k - 1) as nat);
        lemma_insert_within(
            sections,
            with_stubs(symbols, imports, (k - 1) as nat),
            stub_symbol(imports[k - 1], k - 1),
        );
    }
}

/// What the linker makes keeps the symbols within their sections: the
/// symbols that mark `.dynamic` and `.got.plt` stand at the start of their
/// sections, and the stub of each import lies within `.plt`. What is left
/// out is a symbol of the inputs in a section called `.plt`, `.got.plt` or
/// `.interp`, the names of the sections that the linker makes.
pub proof fn lemma_finished_symbols_within(g: Gathered, opt: OptView)
    requires
        finished(g, opt) is Ok,
        within_sections(g.sections, g.symbols),
        forall|k: int|
            0 <= k < g.symbols.len() ==> (#[trigger] g.symbols[k]).section_name != ".plt"@
                && g.symbols[k].section_name != ".got.plt"@ && g.symbols[k].section_name
                != ".interp"@,
    ensures
        within_sections(finished(g, opt)->Ok_0.sections, finished(g, opt)->Ok_0.symbols),
{
    reveal_strlit(".plt");
    reveal_strlit(".got.plt");
    reveal_strlit(".interp");
    let made = finished(g, opt)->Ok_0;
    let k = g.imports.len();
    let first = if opt.shared || g.dynamic_link {
        insert_symbol(g.symbols, landmark("_DYNAMIC"@, ".dynamic"@))
    } else {
        g.symbols
    };
    let plt = plt_section(k);
    let got = got_section(k);
    assert(".plt"@.len() == 4 && ".got.plt"@.len() == 8 && ".interp"@.len() == 7);
    assert(within_sections(made.sections, g.symbols)) by {
        assert forall|i: int|
            0 <= i < g.symbols.len() && is_output_section(
                made.sections,
                (#[trigger] g.symbols[i]).section_name,
            ) implies g.symbols[i].offset <= base_of(made.sections, g.symbols[i].section_name) by {
            let name = g.symbols[i].section_name;
            if g.dynamic_link {
                lemma_pushed_section(g.sections, plt, ".got.plt"@);
                lemma_pushed_section(g.sections, plt, name);
                lemma_pushed_section(g.sections.push(plt), got, name);
                if !opt.shared {
                    lemma_put_section(
                        g.sections.push(plt).push(got),
                        interp_section(opt.dynamic_linker->Some_0),
                        name,
                    );
                }
            }
        }
    }
    if opt.shared || g.dynamic_link {
        lemma_insert_within(made.sections, g.symbols, landmark("_DYNAMIC"@, ".dynamic"@));
    }
    if g.dynamic_link {
        lemma_table_sizes(k);
        lemma_pushed_section(g.sections, plt, ".got.plt"@);
        lemma_pushed_section(g.sections.push(plt), got, ".plt"@);
        if !opt.shared {
            lemma_put_section(
                g.sections.push(plt).push(got),
                interp_section(opt.dynamic_linker->Some_0),
                ".plt"@,
            );
        }
        assert(base_of(made.sections, ".plt"@) == 16 + 16 * k);
        let second = insert_symbol(first, landmark("_GLOBAL_OFFSET_TABLE_"@, ".got.plt"@));
        lemma_insert_within(made.sections, first, landmark("_GLOBAL_OFFSET_TABLE_"@, ".got.plt"@));
        lemma_stubs_within(made.sections, second, g.imports, k);
    }
}

} // verus!
