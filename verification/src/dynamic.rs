//! The dynamic table: which entries it holds, and in which order.

use crate::opt::HashStyle;
use object::write::StringId;
use vstd::prelude::*;

verus! {

pub const DT_NULL: u32 = 0;

pub const DT_NEEDED: u32 = 1;

pub const DT_PLTRELSZ: u32 = 2;

pub const DT_PLTGOT: u32 = 3;

pub const DT_HASH: u32 = 4;

pub const DT_STRTAB: u32 = 5;

pub const DT_SYMTAB: u32 = 6;

pub const DT_RELA: u32 = 7;

pub const DT_STRSZ: u32 = 10;

pub const DT_SYMENT: u32 = 11;

pub const DT_SONAME: u32 = 14;

pub const DT_PLTREL: u32 = 20;

pub const DT_JMPREL: u32 = 23;

pub const DT_GNU_HASH: u32 = 0x6fff_fef5;

/// What the entries of the dynamic table are computed from.
#[derive(Debug, Copy, Clone)]
pub struct DynamicInfo {
    pub hash_style: HashStyle,
    /// Address of `.hash`.
    pub hash: u64,
    /// Address of `.gnu.hash`.
    pub gnu_hash: u64,
    /// Address of `.dynstr`.
    pub strtab: u64,
    /// Address of `.dynsym`.
    pub symtab: u64,
    /// Number of bytes of `.dynstr`.
    pub strsz: u64,
    /// The name under which a shared object goes, in `.dynstr`.
    pub soname: Option<StringId>,
    /// The output imports symbols of shared objects.
    pub dynamic_link: bool,
    /// Address of `.got.plt`.
    pub pltgot: u64,
    /// Number of bytes of `.rela.plt`.
    pub pltrelsz: u64,
    /// Address of `.rela.plt`.
    pub jmprel: u64,
}

/// The value of an entry of the dynamic table: a number, or the offset of a
/// string of `.dynstr`.
#[derive(Debug, Copy, Clone)]
pub enum DynamicValue {
    Number(u64),
    String(StringId),
}

/// An entry of the dynamic table.
#[derive(Debug, Copy, Clone)]
pub struct DynamicEntry {
    pub tag: u32,
    pub value: DynamicValue,
}

/// An entry whose value is a number.
pub open spec fn number(tag: u32, value: u64) -> DynamicEntry {
    DynamicEntry { tag, value: DynamicValue::Number(value) }
}

/// An entry whose value is a string.
pub open spec fn string(tag: u32, id: StringId) -> DynamicEntry {
    DynamicEntry { tag, value: DynamicValue::String(id) }
}

/// The entries that say where the hash tables are.
pub open spec fn hash_entries(info: DynamicInfo) -> Seq<DynamicEntry> {
    (if info.hash_style.sysv {
        seq![number(DT_HASH, info.hash)]
    } else {
        Seq::empty()
    }) + (if info.hash_style.gnu {
        seq![number(DT_GNU_HASH, info.gnu_hash)]
    } else {
        Seq::empty()
    })
}

/// The entries that every dynamic table holds, but for its end.
pub open spec fn base_entries(info: DynamicInfo) -> Seq<DynamicEntry> {
    seq![
        number(DT_STRTAB, info.strtab),
        number(DT_SYMTAB, info.symtab),
        number(DT_STRSZ, info.strsz),
        number(DT_SYMENT, 24),
    ]
}

/// The entry that names a shared object.
pub open spec fn soname_entries(info: DynamicInfo) -> Seq<DynamicEntry> {
    match info.soname {
        Some(id) => seq![string(DT_SONAME, id)],
        None => Seq::empty(),
    }
}

/// The entries that describe the procedure linkage table.
pub open spec fn plt_entries(info: DynamicInfo) -> Seq<DynamicEntry> {
    if info.dynamic_link {
        seq![
            number(DT_PLTGOT, info.pltgot),
            number(DT_PLTRELSZ, info.pltrelsz),
            number(DT_PLTREL, DT_RELA as u64),
            number(DT_JMPREL, info.jmprel),
        ]
    } else {
        Seq::empty()
    }
}

/// One entry for each shared object that the output needs.
pub open spec fn needed_entries(needed: Seq<StringId>) -> Seq<DynamicEntry> {
    Seq::new(needed.len(), |i: int| string(DT_NEEDED, needed[i]))
}

/// The dynamic table: the hash tables, the string and symbol tables, the
/// name of the shared object, the procedure linkage table, the needed shared
/// objects, and the end.
pub open spec fn dynamic_table(info: DynamicInfo, needed: Seq<StringId>) -> Seq<DynamicEntry> {
    hash_entries(info) + base_entries(info) + soname_entries(info) + plt_entries(info)
        + needed_entries(needed) + seq![number(DT_NULL, 0)]
}

/// The number of entries of the dynamic table: five that are always there,
/// one for each hash table, one for the name of a shared object, four for the
/// procedure linkage table, and one for each needed shared object.
pub open spec fn dynamic_count(
    hash_style: HashStyle,
    soname: bool,
    dynamic_link: bool,
    needed: nat,
) -> nat {
    5 + (if hash_style.sysv {
        1nat
    } else {
        0
    }) + (if hash_style.gnu {
        1nat
    } else {
        0
    }) + (if soname {
        1nat
    } else {
        0
    }) + (if dynamic_link {
        4nat
    } else {
        0
    }) + needed
}

/// How often `tag` occurs among the tags of `entries`.
pub open spec fn occurrences(entries: Seq<DynamicEntry>, tag: u32) -> nat
    decreases entries.len(),
{
    if entries.len() == 0 {
        0
    } else {
        occurrences(entries.drop_last(), tag) + if entries.last().tag == tag {
            1nat
        } else {
            0
        }
    }
}

proof fn lemma_occurrences_add(a: Seq<DynamicEntry>, b: Seq<DynamicEntry>, tag: u32)
    ensures
        occurrences(a + b, tag) == occurrences(a, tag) + occurrences(b, tag),
    decreases b.len(),
{
    if b.len() == 0 {
        assert(a + b =~= a);
    } else {
        assert((a + b).drop_last() =~= a + b.drop_last());
        lemma_occurrences_add(a, b.drop_last(), tag);
    }
}

proof fn lemma_occurrences_one(e: DynamicEntry, tag: u32)
    ensures
        occurrences(seq![e], tag) == if e.tag == tag {
            1nat
        } else {
            0
        },
{
    assert(seq![e].drop_last() =~= Seq::<DynamicEntry>::empty());
    assert(occurrences(seq![e].drop_last(), tag) == 0);
    assert(seq![e].last() == e);
}

proof fn lemma_occurrences_needed(needed: Seq<StringId>, tag: u32)
    ensures
        occurrences(needed_entries(needed), tag) == if tag == DT_NEEDED {
            needed.len()
        } else {
            0
        },
    decreases needed.len(),
{
    if needed.len() > 0 {
        assert(needed_entries(needed).drop_last() =~= needed_entries(needed.drop_last()));
        lemma_occurrences_needed(needed.drop_last(), tag);
    }
}

proof fn lemma_occurrences_four(
    a: DynamicEntry,
    b: DynamicEntry,
    c: DynamicEntry,
    d: DynamicEntry,
    tag: u32,
)
    ensures
        occurrences(seq![a, b, c, d], tag) == occurrences(seq![a], tag) + occurrences(
            seq![b],
            tag,
        ) + occurrences(seq![c], tag) + occurrences(seq![d], tag),
{
    assert(seq![a, b, c, d] =~= seq![a] + seq![b] + seq![c] + seq![d]);
    lemma_occurrences_add(seq![a] + seq![b] + seq![c], seq![d], tag);
    lemma_occurrences_add(seq![a] + seq![b], seq![c], tag);
    lemma_occurrences_add(seq![a], seq![b], tag);
}

/// The dynamic table has as many entries as were counted for it; it holds
/// the size of `.dynstr` under `DT_STRSZ` and 24 under `DT_SYMENT`; it ends
/// with `DT_NULL`; each tag but `DT_NEEDED` occurs at most once, those of the
/// string and symbol tables and `DT_NULL` exactly once, and `DT_NEEDED` once
/// for each needed shared object. `DT_HASH` and `DT_GNU_HASH` occur once
/// where the hash style asks for the table and not at all where it does not;
/// `DT_SONAME` occurs once where the output has such a name, and the four
/// tags of the procedure linkage table once where the output imports from
/// shared objects.
pub proof fn lemma_dynamic_table(info: DynamicInfo, needed: Seq<StringId>)
    ensures
        dynamic_table(info, needed).len() == dynamic_count(
            info.hash_style,
            info.soname is Some,
            info.dynamic_link,
            needed.len(),
        ),
        dynamic_table(info, needed).last() == number(DT_NULL, 0),
        dynamic_table(info, needed).contains(number(DT_STRSZ, info.strsz)),
        dynamic_table(info, needed).contains(number(DT_SYMENT, 24)),
        occurrences(dynamic_table(info, needed), DT_NULL) == 1,
        occurrences(dynamic_table(info, needed), DT_STRTAB) == 1,
        occurrences(dynamic_table(info, needed), DT_SYMTAB) == 1,
        occurrences(dynamic_table(info, needed), DT_STRSZ) == 1,
        occurrences(dynamic_table(info, needed), DT_SYMENT) == 1,
        occurrences(dynamic_table(info, needed), DT_NEEDED) == needed.len(),
        forall|tag: u32| tag != DT_NEEDED ==> occurrences(dynamic_table(info, needed), tag) <= 1,
        occurrences(dynamic_table(info, needed), DT_HASH) == (if info.hash_style.sysv {
            1nat
        } else {
            0
        }),
        occurrences(dynamic_table(info, needed), DT_GNU_HASH) == (if info.hash_style.gnu {
            1nat
        } else {
            0
        }),
        occurrences(dynamic_table(info, needed), DT_SONAME) == (if info.soname is Some {
            1nat
        } else {
            0
        }),
        forall|tag: u32|
            tag == DT_PLTGOT || tag == DT_PLTRELSZ || tag == DT_PLTREL || tag == DT_JMPREL
                ==> occurrences(dynamic_table(info, needed), tag) == (if info.dynamic_link {
                1nat
            } else {
                0
            }),
{
    let table = dynamic_table(info, needed);
    let h = hash_entries(info);
    let b = base_entries(info);
    let s = soname_entries(info);
    let p = plt_entries(info);
    let n = needed_entries(needed);
    let e = seq![number(DT_NULL, 0)];
    let k = h.len() as int;
    assert(table[k + 2] == number(DT_STRSZ, info.strsz));
    assert(table[k + 3] == number(DT_SYMENT, 24));
    assert forall|tag: u32|
        occurrences(table, tag) == occurrences(h, tag) + occurrences(b, tag) + occurrences(
            s,
            tag,
        ) + occurrences(p, tag) + occurrences(n, tag) + occurrences(e, tag) by {
        lemma_occurrences_add(h + b + s + p + n, e, tag);
        lemma_occurrences_add(h + b + s + p, n, tag);
        lemma_occurrences_add(h + b + s, p, tag);
        lemma_occurrences_add(h + b, s, tag);
        lemma_occurrences_add(h, b, tag);
    }
    assert forall|tag: u32|
        {
            &&& occurrences(h, tag) == (if info.hash_style.sysv && tag == DT_HASH {
                1nat
            } else {
                0
            }) + (if info.hash_style.gnu && tag == DT_GNU_HASH {
                1nat
            } else {
                0
            })
            &&& occurrences(b, tag) == (if tag == DT_STRTAB || tag == DT_SYMTAB || tag == DT_STRSZ
                || tag == DT_SYMENT {
                1nat
            } else {
                0
            })
            &&& occurrences(s, tag) == (if info.soname is Some && tag == DT_SONAME {
                1nat
            } else {
                0
            })
            &&& occurrences(p, tag) == (if info.dynamic_link && (tag == DT_PLTGOT || tag
                == DT_PLTRELSZ || tag == DT_PLTREL || tag == DT_JMPREL) {
                1nat
            } else {
                0
            })
            &&& occurrences(n, tag) == (if tag == DT_NEEDED {
                needed.len()
            } else {
                0
            })
            &&& occurrences(e, tag) == (if tag == DT_NULL {
                1nat
            } else {
                0
            })
        } by {
        lemma_occurrences_one(number(DT_HASH, info.hash), tag);
        lemma_occurrences_one(number(DT_GNU_HASH, info.gnu_hash), tag);
        lemma_occurrences_add(
            seq![number(DT_HASH, info.hash)],
            seq![number(DT_GNU_HASH, info.gnu_hash)],
            tag,
        );
        assert(occurrences(Seq::<DynamicEntry>::empty(), tag) == 0);
        lemma_occurrences_add(Seq::empty(), seq![number(DT_GNU_HASH, info.gnu_hash)], tag);
        lemma_occurrences_add(seq![number(DT_HASH, info.hash)], Seq::empty(), tag);
        lemma_occurrences_add(Seq::<DynamicEntry>::empty(), Seq::empty(), tag);
        lemma_occurrences_four(
            number(DT_STRTAB, info.strtab),
            number(DT_SYMTAB, info.symtab),
            number(DT_STRSZ, info.strsz),
            number(DT_SYMENT, 24),
            tag,
        );
        lemma_occurrences_one(number(DT_STRTAB, info.strtab), tag);
        lemma_occurrences_one(number(DT_SYMTAB, info.symtab), tag);
        lemma_occurrences_one(number(DT_STRSZ, info.strsz), tag);
        lemma_occurrences_one(number(DT_SYMENT, 24), tag);
        if info.soname is Some {
            lemma_occurrences_one(string(DT_SONAME, info.soname->Some_0), tag);
        }
        lemma_occurrences_four(
            number(DT_PLTGOT, info.pltgot),
            number(DT_PLTRELSZ, info.pltrelsz),
            number(DT_PLTREL, DT_RELA as u64),
            number(DT_JMPREL, info.jmprel),
            tag,
        );
        lemma_occurrences_one(number(DT_PLTGOT, info.pltgot), tag);
        lemma_occurrences_one(number(DT_PLTRELSZ, info.pltrelsz), tag);
        lemma_occurrences_one(number(DT_PLTREL, DT_RELA as u64), tag);
        lemma_occurrences_one(number(DT_JMPREL, info.jmprel), tag);
        lemma_occurrences_needed(needed, tag);
        lemma_occurrences_one(number(DT_NULL, 0), tag);
    }
}

/// Builds the dynamic table.
pub fn build_dynamic_table(info: &DynamicInfo, needed: &Vec<StringId>) -> (table: Vec<
    DynamicEntry,
>)
    ensures
        table@ == dynamic_table(*info, needed@),
{
    let mut table: Vec<DynamicEntry> = Vec::new();
    if info.hash_style.sysv {
        table.push(DynamicEntry { tag: DT_HASH, value: DynamicValue::Number(info.hash) });
    }
    if info.hash_style.gnu {
        table.push(DynamicEntry { tag: DT_GNU_HASH, value: DynamicValue::Number(info.gnu_hash) });
    }
    assert(table@ =~= hash_entries(*info));
    table.push(DynamicEntry { tag: DT_STRTAB, value: DynamicValue::Number(info.strtab) });
    table.push(DynamicEntry { tag: DT_SYMTAB, value: DynamicValue::Number(info.symtab) });
    table.push(DynamicEntry { tag: DT_STRSZ, value: DynamicValue::Number(info.strsz) });
    table.push(DynamicEntry { tag: DT_SYMENT, value: DynamicValue::Number(24) });
    assert(table@ =~= hash_entries(*info) + base_entries(*info));
    match info.soname {
        Some(id) => {
            table.push(DynamicEntry { tag: DT_SONAME, value: DynamicValue::String(id) });
        },
        None => {},
    }
    assert(table@ =~= hash_entries(*info) + base_entries(*info) + soname_entries(*info));
    if info.dynamic_link {
        table.push(DynamicEntry { tag: DT_PLTGOT, value: DynamicValue::Number(info.pltgot) });
        table.push(DynamicEntry { tag: DT_PLTRELSZ, value: DynamicValue::Number(info.pltrelsz) });
        table.push(DynamicEntry { tag: DT_PLTREL, value: DynamicValue::Number(DT_RELA as u64) });
        table.push(DynamicEntry { tag: DT_JMPREL, value: DynamicValue::Number(info.jmprel) });
    }
    let ghost head = hash_entries(*info) + base_entries(*info) + soname_entries(*info)
        + plt_entries(*info);
    assert(table@ =~= head);
    let n = needed.len();
    let mut i: usize = 0;
    while i < n
        invariant
            i <= n,
            n == needed@.len(),
            table@ =~= head + needed_entries(needed@).take(i as int),
        decreases n - i,
    {
        table.push(DynamicEntry { tag: DT_NEEDED, value: DynamicValue::String(needed[i]) });
        i += 1;
    }
    assert(needed_entries(needed@).take(n as int) =~= needed_entries(needed@));
    table.push(DynamicEntry { tag: DT_NULL, value: DynamicValue::Number(0) });
    assert(table@ =~= dynamic_table(*info, needed@));
    table
}

/// The names in the dynamic table: the needed shared objects stand, in their
/// order, right before `DT_NULL`, each under `DT_NEEDED` with the string of
/// its name; the name of the output stands behind the entries of the hash
/// tables and the four of the string and symbol tables, under `DT_SONAME`.
pub proof fn lemma_dynamic_names(info: DynamicInfo, needed: Seq<StringId>)
    ensures
        dynamic_table(info, needed).len() >= 5 + needed.len(),
        forall|k: int|
            0 <= k < needed.len() ==> dynamic_table(info, needed)[dynamic_table(
                info,
                needed,
            ).len() - 1 - needed.len() + k] == string(DT_NEEDED, #[trigger] needed[k]),
        info.soname is Some ==> dynamic_table(info, needed)[hash_entries(info).len() as int + 4]
            == string(DT_SONAME, info.soname->Some_0),
{
    let table = dynamic_table(info, needed);
    let head = hash_entries(info) + base_entries(info) + soname_entries(info) + plt_entries(info);
    assert forall|k: int| 0 <= k < needed.len() implies table[table.len() - 1 - needed.len() + k]
        == string(DT_NEEDED, #[trigger] needed[k]) by {
        assert(table[head.len() + k] == needed_entries(needed)[k]);
    }
}

/// Every entry of the dynamic table whose value is a string is the name of
/// the output or that of a needed shared object.
pub proof fn lemma_dynamic_strings(info: DynamicInfo, needed: Seq<StringId>)
    ensures
        forall|i: int|
            0 <= i < dynamic_table(info, needed).len() ==> match (#[trigger] dynamic_table(
                info,
                needed,
            )[i]).value {
                DynamicValue::Number(_) => true,
                DynamicValue::String(id) => Some(id) == info.soname || exists|k: int|
                    0 <= k < needed.len() && needed[k] == id,
            },
{
    let table = dynamic_table(info, needed);
    let head = hash_entries(info) + base_entries(info) + soname_entries(info) + plt_entries(info);
    assert forall|i: int| 0 <= i < table.len() implies match (#[trigger] table[i]).value {
        DynamicValue::Number(_) => true,
        DynamicValue::String(id) => Some(id) == info.soname || exists|k: int|
            0 <= k < needed.len() && needed[k] == id,
    } by {
        if i >= head.len() && i < head.len() + needed.len() {
            let k = i - head.len();
            assert(table[i] == needed_entries(needed)[k]);
            assert(needed[k] == needed[k]);
        }
    }
}

} // verus!
