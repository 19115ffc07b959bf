//! The two hash functions of ELF symbol names, and the order in which the
//! GNU hash table wants the exported symbols.

use crate::model::DynamicSymbol;
use crate::text::views;
use vstd::prelude::*;

verus! {

/// The GNU hash of a name: 5381, then times 33 plus the byte, for each byte,
/// in 32 bits.
pub open spec fn gnu_hash_of(name: Seq<u8>) -> u32
    decreases name.len(),
{
    if name.len() == 0 {
        5381
    } else {
        ((gnu_hash_of(name.drop_last()) * 33 + name.last()) % 0x1_0000_0000) as u32
    }
}

/// One step of the System V hash.
pub open spec fn sysv_step(h: u32, byte: u8) -> u32 {
    let shifted = ((h * 16 + byte) % 0x1_0000_0000) as u32;
    shifted ^ ((shifted >> 24) & 0xf0)
}

/// The System V hash of a name, before its top four bits are cleared.
pub open spec fn sysv_fold(name: Seq<u8>) -> u32
    decreases name.len(),
{
    if name.len() == 0 {
        0
    } else {
        sysv_step(sysv_fold(name.drop_last()), name.last())
    }
}

/// The System V hash of a name.
pub open spec fn sysv_hash_of(name: Seq<u8>) -> u32 {
    sysv_fold(name) & 0xfff_ffff
}

/// Calls `object::elf::gnu_hash`. That function starts from 5381 and, byte by
/// byte, multiplies by 33 and adds the byte, wrapping in 32 bits.
#[verifier::external_body]
pub(crate) fn gnu_hash(name: &[u8]) -> (h: u32)
    ensures
        h == gnu_hash_of(name@),
{
    object::elf::gnu_hash(name)
}

/// Calls `object::elf::hash`. That function starts from 0 and, byte by byte,
/// multiplies by 16 and adds the byte, wrapping in 32 bits, then folds bits
/// 28 to 31 into bits 4 to 7; at the end it clears the top four bits.
#[verifier::external_body]
pub(crate) fn sysv_hash(name: &[u8]) -> (h: u32)
    ensures
        h == sysv_hash_of(name@),
{
    object::elf::hash(name)
}

/// The bytes of a name as they are written to a string table.
pub open spec fn name_bytes(name: Seq<char>) -> Seq<u8> {
    vstd::utf8::encode_utf8(name)
}

/// The bucket of the GNU hash table in which a name falls.
pub open spec fn bucket_of(name: Seq<char>, buckets: nat) -> int {
    gnu_hash_of(name_bytes(name)) as int % buckets as int
}

/// The first index at which a key greater than `k` stands; the length of
/// `keys` where none is greater.
pub open spec fn first_greater(keys: Seq<int>, k: int) -> int
    decreases keys.len(),
{
    if keys.len() == 0 {
        0
    } else {
        let p = first_greater(keys.drop_last(), k);
        if p < keys.len() - 1 {
            p
        } else if keys.last() > k {
            keys.len() - 1
        } else {
            keys.len() as int
        }
    }
}

/// The buckets of a sequence of names.
pub open spec fn buckets_of(names: Seq<Seq<char>>, buckets: nat) -> Seq<int> {
    Seq::new(names.len(), |i: int| bucket_of(names[i], buckets))
}

/// `sorted`, with `name` inserted behind every name whose bucket is not
/// greater than its own.
pub open spec fn insert_by_bucket(sorted: Seq<Seq<char>>, name: Seq<char>, buckets: nat) -> Seq<
    Seq<char>,
> {
    sorted.insert(first_greater(buckets_of(sorted, buckets), bucket_of(name, buckets)), name)
}

/// The first `n` names of `names`, ordered by bucket; names of one bucket keep
/// their order.
pub open spec fn sorted_prefix(names: Seq<Seq<char>>, n: int, buckets: nat) -> Seq<Seq<char>>
    decreases n,
{
    if n <= 0 {
        Seq::empty()
    } else {
        insert_by_bucket(sorted_prefix(names, n - 1, buckets), names[n - 1], buckets)
    }
}

/// The exported names in the order of the dynamic symbol table: by bucket of
/// the GNU hash table, which has as many buckets as there are names; names of
/// one bucket keep their order.
pub open spec fn by_bucket(names: Seq<Seq<char>>) -> Seq<Seq<char>> {
    sorted_prefix(names, names.len() as int, names.len())
}

/// The keys never decrease.
pub open spec fn ascending(keys: Seq<int>) -> bool {
    forall|i: int, j: int| 0 <= i < j < keys.len() ==> keys[i] <= keys[j]
}

proof fn lemma_first_greater(keys: Seq<int>, k: int)
    ensures
        0 <= first_greater(keys, k) <= keys.len(),
        first_greater(keys, k) < keys.len() ==> keys[first_greater(keys, k)] > k,
        forall|j: int| 0 <= j < first_greater(keys, k) ==> keys[j] <= k,
    decreases keys.len(),
{
    if keys.len() > 0 {
        let init = keys.drop_last();
        lemma_first_greater(init, k);
        assert forall|j: int| 0 <= j < first_greater(keys, k) implies keys[j] <= k by {
            if j < init.len() {
                assert(init[j] == keys[j]);
            }
        }
    }
}

proof fn lemma_first_greater_is(keys: Seq<int>, k: int, p: int)
    requires
        0 <= p <= keys.len(),
        p < keys.len() ==> keys[p] > k,
        forall|j: int| 0 <= j < p ==> keys[j] <= k,
    ensures
        first_greater(keys, k) == p,
    decreases keys.len(),
{
    if keys.len() > 0 {
        let init = keys.drop_last();
        if p < keys.len() - 1 {
            lemma_first_greater_is(init, k, p);
        } else {
            lemma_first_greater_is(init, k, keys.len() - 1);
        }
    }
}

/// Inserting by bucket keeps an ascending sequence ascending, adds one name
/// and loses none.
proof fn lemma_insert_by_bucket(sorted: Seq<Seq<char>>, name: Seq<char>, buckets: nat)
    requires
        ascending(buckets_of(sorted, buckets)),
    ensures
        ascending(buckets_of(insert_by_bucket(sorted, name, buckets), buckets)),
        insert_by_bucket(sorted, name, buckets).len() == sorted.len() + 1,
        insert_by_bucket(sorted, name, buckets).to_multiset() == sorted.to_multiset().insert(name),
{
    let keys = buckets_of(sorted, buckets);
    let k = bucket_of(name, buckets);
    let p = first_greater(keys, k);
    lemma_first_greater(keys, k);
    let after = insert_by_bucket(sorted, name, buckets);
    let after_keys = buckets_of(after, buckets);
    assert forall|i: int, j: int| 0 <= i < j < after_keys.len() implies after_keys[i]
        <= after_keys[j] by {
        if i < p {
            assert(after[i] == sorted[i]);
            assert(after_keys[i] == keys[i]);
        } else if i > p {
            assert(after[i] == sorted[i - 1]);
            assert(after_keys[i] == keys[i - 1]);
        }
        if j < p {
            assert(after[j] == sorted[j]);
            assert(after_keys[j] == keys[j]);
        } else if j > p {
            assert(after[j] == sorted[j - 1]);
            assert(after_keys[j] == keys[j - 1]);
        }
        if j > p && i <= p {
            assert(keys[p] <= keys[j - 1]);
        }
    }
    vstd::seq_lib::to_multiset_insert(sorted, p, name);
}

/// The names come out in ascending order of bucket, and they are the names
/// that went in, each as often as before.
pub proof fn lemma_sorted_prefix(names: Seq<Seq<char>>, n: int, buckets: nat)
    requires
        0 <= n <= names.len(),
    ensures
        ascending(buckets_of(sorted_prefix(names, n, buckets), buckets)),
        sorted_prefix(names, n, buckets).len() == n,
        sorted_prefix(names, n, buckets).to_multiset() == names.take(n).to_multiset(),
    decreases n,
{
    if n > 0 {
        lemma_sorted_prefix(names, n - 1, buckets);
        lemma_insert_by_bucket(sorted_prefix(names, n - 1, buckets), names[n - 1], buckets);
        assert(names.take(n) =~= names.take(n - 1).push(names[n - 1]));
        vstd::seq_lib::lemma_multiset_commutative(names.take(n - 1), seq![names[n - 1]]);
        assert(names.take(n - 1).push(names[n - 1]) =~= names.take(n - 1) + seq![names[n - 1]]);
        assert(seq![names[n - 1]].to_multiset() =~= vstd::multiset::Multiset::empty().insert(
            names[n - 1],
        )) by {
            broadcast use vstd::seq_lib::group_to_multiset_ensures;

            assert(seq![names[n - 1]] =~= Seq::<Seq<char>>::empty().push(names[n - 1]));
        }
        assert(names.take(n).to_multiset() =~= names.take(n - 1).to_multiset().insert(
            names[n - 1],
        ));
    } else {
        assert(names.take(0) =~= Seq::<Seq<char>>::empty());
        broadcast use vstd::seq_lib::group_to_multiset_ensures;

    }
}

/// The names of `names` that fall into the bucket `b`, in their order.
pub open spec fn of_bucket(names: Seq<Seq<char>>, b: int, buckets: nat) -> Seq<Seq<char>>
    decreases names.len(),
{
    if names.len() == 0 {
        Seq::empty()
    } else {
        let rest = of_bucket(names.drop_last(), b, buckets);
        if bucket_of(names.last(), buckets) == b {
            rest.push(names.last())
        } else {
            rest
        }
    }
}

/// A name inserted before names of greater buckets only comes last among the
/// names of its bucket, and leaves the other buckets as they were.
proof fn lemma_of_bucket_insert(s: Seq<Seq<char>>, p: int, x: Seq<char>, b: int, buckets: nat)
    requires
        0 <= p <= s.len(),
        forall|j: int|
            p <= j < s.len() ==> bucket_of(#[trigger] s[j], buckets) > bucket_of(x, buckets),
    ensures
        of_bucket(s.insert(p, x), b, buckets) == (if bucket_of(x, buckets) == b {
            of_bucket(s, b, buckets).push(x)
        } else {
            of_bucket(s, b, buckets)
        }),
    decreases s.len() - p,
{
    let after = s.insert(p, x);
    if p == s.len() {
        assert(after.drop_last() =~= s);
        assert(after.last() == x);
    } else {
        let t = s.drop_last();
        assert(after.drop_last() =~= t.insert(p, x));
        assert(after.last() == s.last());
        assert forall|j: int| p <= j < t.len() implies bucket_of(#[trigger] t[j], buckets)
            > bucket_of(x, buckets) by {
            assert(t[j] == s[j]);
        }
        lemma_of_bucket_insert(t, p, x, b, buckets);
        assert(bucket_of(s[s.len() - 1], buckets) > bucket_of(x, buckets));
    }
}

proof fn lemma_sorted_stable(names: Seq<Seq<char>>, n: int, buckets: nat, b: int)
    requires
        0 <= n <= names.len(),
    ensures
        of_bucket(sorted_prefix(names, n, buckets), b, buckets) == of_bucket(
            names.take(n),
            b,
            buckets,
        ),
    decreases n,
{
    if n > 0 {
        lemma_sorted_stable(names, n - 1, buckets, b);
        lemma_sorted_prefix(names, n - 1, buckets);
        let sorted = sorted_prefix(names, n - 1, buckets);
        let x = names[n - 1];
        let keys = buckets_of(sorted, buckets);
        let p = first_greater(keys, bucket_of(x, buckets));
        lemma_first_greater(keys, bucket_of(x, buckets));
        assert forall|j: int| p <= j < sorted.len() implies bucket_of(
            #[trigger] sorted[j],
            buckets,
        ) > bucket_of(x, buckets) by {
            assert(keys[j] == bucket_of(sorted[j], buckets));
            if p < j {
                assert(keys[p] <= keys[j]);
            }
        }
        lemma_of_bucket_insert(sorted, p, x, b, buckets);
        assert(names.take(n).drop_last() =~= names.take(n - 1));
        assert(names.take(n).last() == x);
    } else {
        assert(names.take(0) =~= Seq::<Seq<char>>::empty());
    }
}

/// The order by bucket is stable: the names of one bucket stand in the
/// dynamic symbol table in the order in which they came.
pub proof fn lemma_bucket_order_stable(names: Seq<Seq<char>>, b: int)
    ensures
        of_bucket(by_bucket(names), b, names.len()) == of_bucket(names, b, names.len()),
{
    lemma_sorted_stable(names, names.len() as int, names.len(), b);
    assert(names.take(names.len() as int) =~= names);
}

/// Of two exported names, the one in the lower bucket of the GNU hash table
/// stands first in the dynamic symbol table.
pub proof fn lemma_bucket_order(names: Seq<Seq<char>>, i: int, j: int)
    requires
        0 <= i < names.len(),
        0 <= j < names.len(),
        bucket_of(by_bucket(names)[i], names.len()) < bucket_of(by_bucket(names)[j], names.len()),
    ensures
        i < j,
        by_bucket(names).len() == names.len(),
        by_bucket(names).to_multiset() == names.to_multiset(),
{
    lemma_sorted_prefix(names, names.len() as int, names.len());
    let sorted = by_bucket(names);
    let keys = buckets_of(sorted, names.len());
    assert(names.take(names.len() as int) =~= names);
    if j <= i {
        if j < i {
            assert(keys[j] <= keys[i]);
        }
        assert(keys[i] == bucket_of(sorted[i], names.len()));
        assert(keys[j] == bucket_of(sorted[j], names.len()));
    }
}

/// Puts the exported symbols into the order of the dynamic symbol table.
pub fn sort_by_bucket(symbols: &Vec<DynamicSymbol>) -> (sorted: Vec<DynamicSymbol>)
    requires
        symbols@.len() <= u32::MAX,
    ensures
        views(sorted@) == by_bucket(views(symbols@)),
{
    let ghost names = views(symbols@);
    let n = symbols.len();
    let buckets = n as u32;
    let mut sorted: Vec<DynamicSymbol> = Vec::new();
    let mut keys: Vec<u32> = Vec::new();
    let mut i: usize = 0;
    assert(views(sorted@) =~= sorted_prefix(names, 0, n as nat));
    while i < n
        invariant
            i <= n,
            n <= u32::MAX,
            buckets == n,
            names == views(symbols@),
            symbols@.len() == n,
            views(sorted@) == sorted_prefix(names, i as int, n as nat),
            keys@.len() == sorted@.len(),
            forall|j: int|
                0 <= j < keys@.len() ==> (#[trigger] keys@[j]) as int == bucket_of(
                    sorted@[j]@,
                    n as nat,
                ),
        decreases n - i,
    {
        let symbol = DynamicSymbol { name: symbols[i].name.clone() };
        assert(symbol@ == names[i as int]);
        let key = gnu_hash(symbol.name.as_str().as_bytes()) % buckets;
        let ghost key_seq = buckets_of(views(sorted@), n as nat);
        assert(key as int == bucket_of(symbol@, n as nat));
        let m = keys.len();
        let mut p: usize = 0;
        while p < m && keys[p] <= key
            invariant
                p <= m,
                m == keys@.len(),
                forall|j: int| 0 <= j < p ==> keys@[j] <= key,
            decreases m - p,
        {
            p += 1;
        }
        proof {
            assert forall|j: int| 0 <= j < p implies key_seq[j] <= key as int by {
                assert(keys@[j] as int == bucket_of(sorted@[j]@, n as nat));
            }
            if p < m {
                assert(keys@[p as int] as int == bucket_of(sorted@[p as int]@, n as nat));
            }
            lemma_first_greater_is(key_seq, key as int, p as int);
            assert(views(sorted@.insert(p as int, symbol)) =~= views(sorted@).insert(
                p as int,
                symbol@,
            ));
        }
        sorted.insert(p, symbol);
        keys.insert(p, key);
        i += 1;
    }
    sorted
}

} // verus!
