//! Facts about the order in which a `BTreeMap` hands out its keys.

use vstd::prelude::*;
use vstd::std_specs::cmp::OrdSpec;

verus! {

broadcast use vstd::laws_cmp::group_laws_cmp;

/// In an increasing sequence, an earlier element compares as less.
proof fn lemma_increasing_less<K: Ord>(s: Seq<K>, i: int, j: int)
    requires
        vstd::std_specs::btree::increasing_seq(s),
        vstd::laws_cmp::obeys_cmp::<K>(),
        0 <= i < j < s.len(),
    ensures
        s[i].cmp_spec(&s[j]) is Less,
{
    vstd::std_specs::btree::axiom_increasing_seq_meaning::<K>(s);
}

/// In an increasing sequence of `u16` keys, an earlier key is smaller.
pub proof fn lemma_increasing_keys(s: Seq<&u16>, i: int, j: int)
    requires
        vstd::std_specs::btree::increasing_seq(s),
        0 <= i < j < s.len(),
    ensures
        *s[i] < *s[j],
{
    lemma_increasing_less::<&u16>(s, i, j);
}

} // verus!
