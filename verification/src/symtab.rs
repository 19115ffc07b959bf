//! The order of the static symbol table: local symbols first.

use crate::model::{Symbol, SymbolView};
use crate::text::views;
use vstd::prelude::*;

verus! {

/// `STB_LOCAL`, in the binding bits of `st_info`.
pub const STB_LOCAL: u8 = 0;

/// `STB_GLOBAL`, in the binding bits of `st_info`.
pub const STB_GLOBAL: u8 = 1;

/// The indices below `n` of the symbols that are global, or of those that
/// are not, in ascending order.
pub open spec fn indices_of(symbols: Seq<SymbolView>, global: bool, n: int) -> Seq<int>
    decreases n,
{
    if n <= 0 {
        Seq::empty()
    } else if symbols[n - 1].is_global == global {
        indices_of(symbols, global, n - 1).push(n - 1)
    } else {
        indices_of(symbols, global, n - 1)
    }
}

/// The number of local symbols.
pub open spec fn local_count(symbols: Seq<SymbolView>) -> nat {
    indices_of(symbols, false, symbols.len() as int).len()
}

/// The order in which the symbols are written to `.symtab`, as indices into
/// the symbol table: the local ones, then the global ones, each group in the
/// order of the table.
pub open spec fn symtab_order(symbols: Seq<SymbolView>) -> Seq<int> {
    indices_of(symbols, false, symbols.len() as int) + indices_of(
        symbols,
        true,
        symbols.len() as int,
    )
}

/// The value of `st_info` for a symbol: its binding in the upper four bits,
/// type 0.
pub open spec fn binding_info(is_global: bool) -> u8 {
    if is_global {
        16
    } else {
        0
    }
}

/// The indices that `indices_of` lists are those below `n` of the symbols of
/// the given binding, each once, in ascending order.
pub proof fn lemma_indices_of(symbols: Seq<SymbolView>, global: bool, n: int)
    requires
        0 <= n <= symbols.len(),
    ensures
        indices_of(symbols, global, n).len() <= n,
        forall|k: int|
            0 <= k < indices_of(symbols, global, n).len() ==> {
                let i = #[trigger] indices_of(symbols, global, n)[k];
                0 <= i < n && symbols[i].is_global == global
            },
        forall|k: int, l: int|
            0 <= k < l < indices_of(symbols, global, n).len() ==> indices_of(symbols, global, n)[k]
                < indices_of(symbols, global, n)[l],
        forall|i: int|
            0 <= i < n && symbols[i].is_global == global ==> indices_of(
                symbols,
                global,
                n,
            ).contains(i),
    decreases n,
{
    if n > 0 {
        lemma_indices_of(symbols, global, n - 1);
        let before = indices_of(symbols, global, n - 1);
        let now = indices_of(symbols, global, n);
        assert forall|i: int| 0 <= i < n && symbols[i].is_global == global implies now.contains(
            i,
        ) by {
            if i < n - 1 {
                assert(before.contains(i));
                let k = choose|k: int| 0 <= k < before.len() && before[k] == i;
                assert(now[k] == i);
            } else {
                assert(now[now.len() - 1] == i);
            }
        }
    }
}

/// In `.symtab` every local symbol stands before every global one, the
/// locals are as many as `local_count` says, and every symbol is written
/// once.
pub proof fn lemma_locals_first(symbols: Seq<SymbolView>)
    ensures
        symtab_order(symbols).len() == symbols.len(),
        forall|k: int|
            0 <= k < symtab_order(symbols).len() ==> {
                let i = #[trigger] symtab_order(symbols)[k];
                0 <= i < symbols.len() && (symbols[i].is_global <==> k >= local_count(symbols))
            },
        forall|i: int| 0 <= i < symbols.len() ==> symtab_order(symbols).contains(i),
{
    let n = symbols.len() as int;
    lemma_indices_of(symbols, false, n);
    lemma_indices_of(symbols, true, n);
    lemma_split(symbols, n);
    let locals = indices_of(symbols, false, n);
    let globals = indices_of(symbols, true, n);
    let order = symtab_order(symbols);
    assert forall|i: int| 0 <= i < symbols.len() implies order.contains(i) by {
        if symbols[i].is_global {
            assert(globals.contains(i));
            let k = choose|k: int| 0 <= k < globals.len() && globals[k] == i;
            assert(order[locals.len() + k] == i);
        } else {
            assert(locals.contains(i));
            let k = choose|k: int| 0 <= k < locals.len() && locals[k] == i;
            assert(order[k] == i);
        }
    }
}

/// The order of `.symtab` is stable: of two symbols of one binding, the one
/// that stands first in the symbol table is written first.
pub proof fn lemma_symtab_stable(symbols: Seq<SymbolView>, k: int, l: int)
    requires
        0 <= k < l < symbols.len(),
        symbols[symtab_order(symbols)[k]].is_global == symbols[symtab_order(
            symbols,
        )[l]].is_global,
    ensures
        symtab_order(symbols).len() == symbols.len(),
        symtab_order(symbols)[k] < symtab_order(symbols)[l],
{
    let n = symbols.len() as int;
    lemma_indices_of(symbols, false, n);
    lemma_indices_of(symbols, true, n);
    lemma_split(symbols, n);
    lemma_locals_first(symbols);
    let locals = indices_of(symbols, false, n);
    let globals = indices_of(symbols, true, n);
    let order = symtab_order(symbols);
    let a = order[k];
    let b = order[l];
    if l < locals.len() {
        assert(order[k] == locals[k] && order[l] == locals[l]);
    } else if k >= locals.len() {
        assert(order[k] == globals[k - locals.len()] && order[l] == globals[l - locals.len()]);
    } else {
        assert(!symbols[a].is_global);
        assert(symbols[b].is_global);
    }
}

proof fn lemma_split(symbols: Seq<SymbolView>, n: int)
    requires
        0 <= n <= symbols.len(),
    ensures
        indices_of(symbols, false, n).len() + indices_of(symbols, true, n).len() == n,
    decreases n,
{
    if n > 0 {
        lemma_split(symbols, n - 1);
    }
}

/// Computes the order in which the symbols are written to `.symtab`.
pub fn order_symbols(symbols: &Vec<Symbol>) -> (order: Vec<usize>)
    ensures
        order@.len() == symtab_order(views(symbols@)).len(),
        forall|k: int| 0 <= k < order@.len() ==> order@[k] as int == symtab_order(views(symbols@))[k],
        forall|k: int| 0 <= k < order@.len() ==> order@[k] < symbols@.len(),
{
    let ghost syms = views(symbols@);
    let n = symbols.len();
    let mut order: Vec<usize> = Vec::new();
    let mut i: usize = 0;
    while i < n
        invariant
            i <= n,
            n == symbols@.len(),
            syms == views(symbols@),
            order@.len() == indices_of(syms, false, i as int).len(),
            forall|k: int|
                0 <= k < order@.len() ==> order@[k] as int == indices_of(syms, false, i as int)[k],
        decreases n - i,
    {
        if !symbols[i].is_global {
            order.push(i);
        }
        i += 1;
    }
    let ghost locals = indices_of(syms, false, n as int);
    let mut j: usize = 0;
    while j < n
        invariant
            j <= n,
            n == symbols@.len(),
            syms == views(symbols@),
            locals == indices_of(syms, false, n as int),
            order@.len() == locals.len() + indices_of(syms, true, j as int).len(),
            forall|k: int|
                0 <= k < order@.len() ==> order@[k] as int == (locals + indices_of(
                    syms,
                    true,
                    j as int,
                ))[k],
        decreases n - j,
    {
        if symbols[j].is_global {
            order.push(j);
        }
        j += 1;
    }
    proof {
        lemma_locals_first(syms);
    }
    order
}

/// Counts the local symbols.
pub fn count_locals(symbols: &Vec<Symbol>) -> (count: usize)
    ensures
        count == local_count(views(symbols@)),
        count <= symbols@.len(),
{
    let ghost syms = views(symbols@);
    let n = symbols.len();
    let mut count: usize = 0;
    let mut i: usize = 0;
    while i < n
        invariant
            i <= n,
            n == symbols@.len(),
            syms == views(symbols@),
            count == indices_of(syms, false, i as int).len(),
            count <= i,
        decreases n - i,
    {
        if !symbols[i].is_global {
            count += 1;
        }
        i += 1;
    }
    count
}

} // verus!
