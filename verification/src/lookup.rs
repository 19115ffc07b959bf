//! Finding a record by its name in a sequence that stands in for a map.

use crate::model::{OutputSection, SectionView, Symbol, SymbolView};
use crate::text::{same_text, views};
use vstd::prelude::*;

verus! {

/// The first index at which `name` stands in `names`; the length of `names`
/// where it stands nowhere.
pub open spec fn position(names: Seq<Seq<char>>, name: Seq<char>) -> int
    decreases names.len(),
{
    if names.len() == 0 {
        0
    } else {
        let p = position(names.drop_last(), name);
        if p < names.len() - 1 {
            p
        } else if names.last() == name {
            names.len() - 1
        } else {
            names.len() as int
        }
    }
}

/// `position` is the first index of the name, or the length.
pub proof fn lemma_position(names: Seq<Seq<char>>, name: Seq<char>)
    ensures
        0 <= position(names, name) <= names.len(),
        position(names, name) < names.len() ==> names[position(names, name)] == name,
        forall|j: int| 0 <= j < position(names, name) ==> names[j] != name,
    decreases names.len(),
{
    if names.len() > 0 {
        let init = names.drop_last();
        lemma_position(init, name);
        assert forall|j: int| 0 <= j < position(names, name) implies names[j] != name by {
            if j < init.len() {
                assert(init[j] == names[j]);
            }
        }
    }
}

/// An index with the name, before which the name does not stand, is its
/// `position`.
pub proof fn lemma_position_is(names: Seq<Seq<char>>, name: Seq<char>, p: int)
    requires
        0 <= p <= names.len(),
        p < names.len() ==> names[p] == name,
        forall|j: int| 0 <= j < p ==> names[j] != name,
    ensures
        position(names, name) == p,
    decreases names.len(),
{
    if names.len() > 0 {
        let init = names.drop_last();
        if p < names.len() - 1 {
            lemma_position_is(init, name, p);
        } else {
            lemma_position_is(init, name, names.len() - 1);
        }
    }
}

/// The names of a sequence of sections.
pub open spec fn section_names(sections: Seq<SectionView>) -> Seq<Seq<char>> {
    Seq::new(sections.len(), |i: int| sections[i].name)
}

/// The names of a sequence of symbols.
pub open spec fn symbol_names(symbols: Seq<SymbolView>) -> Seq<Seq<char>> {
    Seq::new(symbols.len(), |i: int| symbols[i].name)
}

/// The index of the section called `name`, or the number of sections.
pub fn find_section(sections: &Vec<OutputSection>, name: &str) -> (p: usize)
    ensures
        p == position(section_names(views(sections@)), name@),
        p <= sections@.len(),
{
    let ghost names = section_names(views(sections@));
    let n = sections.len();
    let mut i: usize = 0;
    while i < n
        invariant
            i <= n,
            n == sections@.len(),
            names == section_names(views(sections@)),
            forall|j: int| 0 <= j < i ==> names[j] != name@,
        decreases n - i,
    {
        if same_text(sections[i].name.as_str(), name) {
            proof {
                lemma_position_is(names, name@, i as int);
            }
            return i;
        }
        i += 1;
    }
    proof {
        lemma_position_is(names, name@, n as int);
    }
    n
}

/// The index of the symbol called `name`, or the number of symbols.
pub fn find_symbol(symbols: &Vec<Symbol>, name: &str) -> (p: usize)
    ensures
        p == position(symbol_names(views(symbols@)), name@),
        p <= symbols@.len(),
{
    let ghost names = symbol_names(views(symbols@));
    let n = symbols.len();
    let mut i: usize = 0;
    while i < n
        invariant
            i <= n,
            n == symbols@.len(),
            names == symbol_names(views(symbols@)),
            forall|j: int| 0 <= j < i ==> names[j] != name@,
        decreases n - i,
    {
        if same_text(symbols[i].name.as_str(), name) {
            proof {
                lemma_position_is(names, name@, i as int);
            }
            return i;
        }
        i += 1;
    }
    proof {
        lemma_position_is(names, name@, n as int);
    }
    n
}

} // verus!
