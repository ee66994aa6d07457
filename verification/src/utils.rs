//! Helpers on sequences of numbers.

use vstd::prelude::*;
use std::collections::BTreeSet;
use std::collections::HashSet;
use std::hash::Hash;
use vstd::std_specs::hash::obeys_key_model;
use crate::errors::IntParseFailure;
use crate::text::{parse_u16_list, u16s_from_str};
use vstd::std_specs::iter::IteratorSpec;
use vstd::std_specs::btree::increasing_seq;
use vstd::std_specs::cmp::OrdSpec;

verus! {

/// Each element is below the one after it.
pub open spec fn strictly_ascending(s: Seq<i32>) -> bool {
    forall|i: int, j: int| 0 <= i < j < s.len() ==> s[i] < s[j]
}

/// `sorted` holds the members of `values`, each once, in ascending order.
pub open spec fn is_sorted_unique_of(sorted: Seq<i32>, values: Seq<i32>) -> bool {
    &&& strictly_ascending(sorted)
    &&& forall|x: i32| sorted.contains(x) <==> values.contains(x)
}

/// The members of `values`, each once, in ascending order.
pub open spec fn sorted_unique_of(values: Seq<i32>) -> Seq<i32> {
    choose|sorted: Seq<i32>| is_sorted_unique_of(sorted, values)
}

/// Two ascending sequences with the same members are the same sequence.
pub proof fn lemma_ascending_members_unique(a: Seq<i32>, b: Seq<i32>)
    requires
        strictly_ascending(a),
        strictly_ascending(b),
        forall|x: i32| a.contains(x) <==> b.contains(x),
    ensures
        a == b,
    decreases a.len(),
{
    if a.len() == 0 {
        if b.len() > 0 {
            assert(b.contains(b[0]));
            assert(a.contains(b[0]));
        }
        assert(a =~= b);
    } else {
        assert(a.contains(a.last()));
        assert(b.contains(a.last()));
        assert(b.len() > 0);
        assert(b.contains(b.last()));
        assert(a.contains(b.last()));
        let i = choose|i: int| 0 <= i < b.len() && b[i] == a.last();
        let j = choose|j: int| 0 <= j < a.len() && a[j] == b.last();
        assert(a.last() == b.last());
        let a0 = a.drop_last();
        let b0 = b.drop_last();
        assert forall|x: i32| a0.contains(x) <==> b0.contains(x) by {
            if a0.contains(x) {
                let k = choose|k: int| 0 <= k < a0.len() && a0[k] == x;
                assert(a[k] == x);
                assert(a.contains(x));
                let m = choose|m: int| 0 <= m < b.len() && b[m] == x;
                assert(x < a.last());
                assert(m < b.len() - 1);
                assert(b0[m] == x);
            }
            if b0.contains(x) {
                let k = choose|k: int| 0 <= k < b0.len() && b0[k] == x;
                assert(b[k] == x);
                assert(b.contains(x));
                let m = choose|m: int| 0 <= m < a.len() && a[m] == x;
                assert(x < b.last());
                assert(m < a.len() - 1);
                assert(a0[m] == x);
            }
        }
        lemma_ascending_members_unique(a0, b0);
        assert(a =~= a0.push(a.last()));
        assert(b =~= b0.push(b.last()));
    }
}

/// A sequence that an ordered set hands out in increasing order ascends.
proof fn lemma_increasing_is_ascending(s: Seq<&i32>)
    requires
        increasing_seq(s),
    ensures
        strictly_ascending(s.unref()),
{
    broadcast use vstd::laws_cmp::group_laws_cmp;

    assert(vstd::laws_cmp::obeys_cmp::<i32>());
    assert(vstd::laws_cmp::obeys_cmp::<&i32>());
    vstd::std_specs::btree::axiom_increasing_seq_meaning::<&i32>(s);
    assert forall|i: int, j: int| 0 <= i < j < s.len() implies s.unref()[i] < s.unref()[j] by {
        assert(OrdSpec::cmp_spec(&s[i], &s[j]) is Less);
    }
}

/// The members of `values`, each once, in ascending order.
pub fn sorted_unique(values: &Vec<i32>) -> (r: Vec<i32>)
    ensures
        is_sorted_unique_of(r@, values@),
        r@ == sorted_unique_of(values@),
{
    let mut set: BTreeSet<i32> = BTreeSet::new();
    let mut i: usize = 0;
    while i < values.len()
        invariant
            i <= values.len(),
            forall|x: i32| set@.contains(x) <==> exists|k: int| 0 <= k < i && values@[k] == x,
        decreases values.len() - i,
    {
        set.insert(values[i]);
        i += 1;
    }
    let mut r: Vec<i32> = Vec::new();
    for x in it: set.iter()
        invariant
            it.seq() == set.iter().remaining(),
            r@.len() == it.index(),
            forall|k: int| 0 <= k < r@.len() ==> r@[k] == *it.seq()[k],
    {
        r.push(*x);
    }
    proof {
        let sorted = set.iter().remaining();
        assert(r@ == sorted.unref());
        lemma_increasing_is_ascending(sorted);
        assert forall|x: i32| r@.contains(x) <==> values@.contains(x) by {
            assert(sorted.unref().to_set() == set@);
            assert(r@.contains(x) <==> r@.to_set().contains(x));
        }
        assert(is_sorted_unique_of(r@, values@));
        let chosen = sorted_unique_of(values@);
        assert(is_sorted_unique_of(chosen, values@));
        lemma_ascending_members_unique(r@, chosen);
    }
    r
}

/// Each element is below the one after it, for numbers of 16 bits.
pub open spec fn ascending(s: Seq<u16>) -> bool {
    forall|i: int, j: int| 0 <= i < j < s.len() ==> s[i] < s[j]
}

/// `sorted` holds the members of `values`, each once, in ascending order,
/// for numbers of 16 bits.
pub open spec fn is_ascending_list_of(sorted: Seq<u16>, values: Seq<u16>) -> bool {
    &&& ascending(sorted)
    &&& forall|x: u16| sorted.contains(x) <==> values.contains(x)
}

/// The members of `values`, each once, in ascending order, for numbers of
/// 16 bits.
pub open spec fn ascending_list_of(values: Seq<u16>) -> Seq<u16> {
    choose|sorted: Seq<u16>| is_ascending_list_of(sorted, values)
}

/// Two ascending sequences with the same members are the same sequence.
pub proof fn lemma_ascending_list_unique(a: Seq<u16>, b: Seq<u16>)
    requires
        ascending(a),
        ascending(b),
        forall|x: u16| a.contains(x) <==> b.contains(x),
    ensures
        a == b,
    decreases a.len(),
{
    if a.len() == 0 {
        if b.len() > 0 {
            assert(b.contains(b[0]));
            assert(a.contains(b[0]));
        }
        assert(a =~= b);
    } else {
        assert(a.contains(a.last()));
        assert(b.contains(a.last()));
        assert(b.len() > 0);
        assert(b.contains(b.last()));
        assert(a.contains(b.last()));
        let i = choose|i: int| 0 <= i < b.len() && b[i] == a.last();
        let j = choose|j: int| 0 <= j < a.len() && a[j] == b.last();
        assert(a.last() == b.last());
        let a0 = a.drop_last();
        let b0 = b.drop_last();
        assert forall|x: u16| a0.contains(x) <==> b0.contains(x) by {
            if a0.contains(x) {
                let k = choose|k: int| 0 <= k < a0.len() && a0[k] == x;
                assert(a[k] == x);
                assert(a.contains(x));
                let m = choose|m: int| 0 <= m < b.len() && b[m] == x;
                assert(x < a.last());
                assert(m < b.len() - 1);
                assert(b0[m] == x);
            }
            if b0.contains(x) {
                let k = choose|k: int| 0 <= k < b0.len() && b0[k] == x;
                assert(b[k] == x);
                assert(b.contains(x));
                let m = choose|m: int| 0 <= m < a.len() && a[m] == x;
                assert(x < b.last());
                assert(m < a.len() - 1);
                assert(a0[m] == x);
            }
        }
        lemma_ascending_list_unique(a0, b0);
        assert(a =~= a0.push(a.last()));
        assert(b =~= b0.push(b.last()));
    }
}

/// A sequence that an ordered set hands out in increasing order ascends.
pub proof fn lemma_increasing_ascends(s: Seq<&u16>)
    requires
        increasing_seq(s),
    ensures
        ascending(s.unref()),
{
    broadcast use vstd::laws_cmp::group_laws_cmp;

    assert(vstd::laws_cmp::obeys_cmp::<u16>());
    assert(vstd::laws_cmp::obeys_cmp::<&u16>());
    vstd::std_specs::btree::axiom_increasing_seq_meaning::<&u16>(s);
    assert forall|i: int, j: int| 0 <= i < j < s.len() implies s.unref()[i] < s.unref()[j] by {
        assert(OrdSpec::cmp_spec(&s[i], &s[j]) is Less);
    }
}

/// The members of `values`, each once, in ascending order, for numbers of
/// 16 bits.
pub fn sorted_unique_u16(values: &Vec<u16>) -> (r: Vec<u16>)
    ensures
        is_ascending_list_of(r@, values@),
        r@ == ascending_list_of(values@),
{
    let mut set: BTreeSet<u16> = BTreeSet::new();
    let mut i: usize = 0;
    while i < values.len()
        invariant
            i <= values.len(),
            forall|x: u16| set@.contains(x) <==> exists|k: int| 0 <= k < i && values@[k] == x,
        decreases values.len() - i,
    {
        set.insert(values[i]);
        i += 1;
    }
    let mut r: Vec<u16> = Vec::new();
    for x in it: set.iter()
        invariant
            it.seq() == set.iter().remaining(),
            r@.len() == it.index(),
            forall|k: int| 0 <= k < r@.len() ==> r@[k] == *it.seq()[k],
    {
        r.push(*x);
    }
    proof {
        let sorted = set.iter().remaining();
        assert(r@ == sorted.unref());
        lemma_increasing_ascends(sorted);
        assert forall|x: u16| r@.contains(x) <==> values@.contains(x) by {
            assert(sorted.unref().to_set() == set@);
            assert(r@.contains(x) <==> r@.to_set().contains(x));
        }
        assert(is_ascending_list_of(r@, values@));
        let chosen = ascending_list_of(values@);
        assert(is_ascending_list_of(chosen, values@));
        lemma_ascending_list_unique(r@, chosen);
    }
    r
}


/// The members of `set`, each once, in no particular order.
pub fn members_of<T: Copy + Eq + Hash>(set: &HashSet<T>) -> (r: Vec<T>)
    requires
        obeys_key_model::<T>(),
    ensures
        r@.to_set() == set@,
        r@.no_duplicates(),
        r@.len() == set@.len(),
{
    let mut r: Vec<T> = Vec::new();
    for x in it: set.iter()
        invariant
            it.seq() == set.iter().remaining(),
            r@.len() == it.index(),
            forall|k: int| 0 <= k < r@.len() ==> r@[k] == *it.seq()[k],
    {
        r.push(*x);
    }
    proof {
        broadcast use vstd::std_specs::hash::group_hash_axioms;

        let listed = set.iter().remaining();
        assert(r@ == listed.unref());
        assert forall|i: int, j: int| 0 <= i < r@.len() && 0 <= j < r@.len() && i != j implies r@[i] != r@[j] by {
            assert(listed[i] != listed[j]);
        }
    }
    r
}

/// The set of the members of `values`.
pub fn set_of<T: Copy + Eq + Hash>(values: &Vec<T>) -> (r: HashSet<T>)
    requires
        obeys_key_model::<T>(),
    ensures
        r@ == values@.to_set(),
{
    let mut r: HashSet<T> = HashSet::new();
    let mut i: usize = 0;
    while i < values.len()
        invariant
            i <= values.len(),
            obeys_key_model::<T>(),
            forall|x: T| r@.contains(x) <==> exists|k: int| 0 <= k < i && values@[k] == x,
        decreases values.len() - i,
    {
        r.insert(values[i]);
        i += 1;
    }
    assert(r@ =~= values@.to_set());
    r
}


/// Reads a text such as `1 2 3` as a list of numbers: the numbers that its
/// tokens stand for, in their order, or the failure of the first token that
/// is no number from 0 to 65535.
pub fn vec_from_str(s: &str) -> (r: Result<Vec<u16>, IntParseFailure>)
    ensures
        match r {
            Ok(v) => parse_u16_list(s@, false) == Ok::<Seq<u16>, IntParseFailure>(v@),
            Err(e) => parse_u16_list(s@, false) == Err::<Seq<u16>, IntParseFailure>(e),
        },
{
    u16s_from_str(s, false)
}

} // verus!
