//! Attributes: names with values, in the order in which they were given.
//! Where a name is given more than once, its first value counts.

use vstd::prelude::*;
use crate::text::{chars_of, str_eq};

verus! {

/// The names and values of `attrs` as texts.
pub open spec fn pairs_of(attrs: Seq<(String, String)>) -> Seq<(Seq<char>, Seq<char>)> {
    Seq::new(attrs.len(), |i: int| (attrs[i].0@, attrs[i].1@))
}

/// The value of the first attribute named `key`, if there is one.
pub open spec fn value_of(attrs: Seq<(Seq<char>, Seq<char>)>, key: Seq<char>) -> Option<Seq<char>>
    decreases attrs.len(),
{
    if attrs.len() == 0 {
        None
    } else if attrs[0].0 == key {
        Some(attrs[0].1)
    } else {
        value_of(attrs.drop_first(), key)
    }
}

/// The attributes that are not named `key`, in their order.
pub open spec fn without(attrs: Seq<(Seq<char>, Seq<char>)>, key: Seq<char>) -> Seq<(Seq<char>, Seq<char>)>
    decreases attrs.len(),
{
    if attrs.len() == 0 {
        attrs
    } else if attrs[0].0 == key {
        without(attrs.drop_first(), key)
    } else {
        seq![attrs[0]] + without(attrs.drop_first(), key)
    }
}

/// Takes the attributes named `key` out of `attrs` and hands out the value
/// of the first of them.
pub fn remove_attr(attrs: &mut Vec<(String, String)>, key: &str) -> (r: Option<String>)
    ensures
        pairs_of(final(attrs)@) == without(pairs_of(old(attrs)@), key@),
        match r {
            Some(value) => value_of(pairs_of(old(attrs)@), key@) == Some(value@),
            None => value_of(pairs_of(old(attrs)@), key@) is None,
        },
{
    let ghost all = pairs_of(attrs@);
    let mut kept: Vec<(String, String)> = Vec::new();
    let mut found: Option<String> = None;
    let mut i: usize = 0;
    proof {
        assert(all.subrange(0, all.len() as int) == all);
        assert(pairs_of(kept@) + without(all, key@) == without(all, key@));
    }
    while i < attrs.len()
        invariant
            i <= attrs.len(),
            all == pairs_of(attrs@),
            without(all, key@) == pairs_of(kept@) + without(all.subrange(i as int, all.len() as int), key@),
            match found {
                Some(value) => value_of(all, key@) == Some(value@),
                None => value_of(all, key@) == value_of(all.subrange(i as int, all.len() as int), key@),
            },
        decreases attrs.len() - i,
    {
        let ghost rest = all.subrange(i as int, all.len() as int);
        proof {
            assert(rest.drop_first() == all.subrange(i + 1, all.len() as int));
            assert(rest[0] == all[i as int]);
        }
        let name = attrs[i].0.clone();
        let value = attrs[i].1.clone();
        if str_eq(name.as_str(), key) {
            if found.is_none() {
                found = Some(value);
            }
        } else {
            let ghost before = pairs_of(kept@);
            kept.push((name, value));
            proof {
                assert(pairs_of(kept@) == before + seq![all[i as int]]);
                assert(before + (seq![rest[0]] + without(rest.drop_first(), key@)) == (before + seq![rest[0]])
                    + without(rest.drop_first(), key@));
            }
        }
        i += 1;
    }
    proof {
        assert(all.subrange(i as int, all.len() as int) == Seq::<(Seq<char>, Seq<char>)>::empty());
        assert(pairs_of(kept@) + Seq::<(Seq<char>, Seq<char>)>::empty() == pairs_of(kept@));
    }
    *attrs = kept;
    found
}

/// The value of the first attribute named `key`, if there is one.
pub fn get_attr(attrs: &Vec<(String, String)>, key: &str) -> (r: Option<String>)
    ensures
        match r {
            Some(value) => value_of(pairs_of(attrs@), key@) == Some(value@),
            None => value_of(pairs_of(attrs@), key@) is None,
        },
{
    let ghost all = pairs_of(attrs@);
    let mut i: usize = 0;
    assert(all.subrange(0, all.len() as int) == all);
    while i < attrs.len()
        invariant
            i <= attrs.len(),
            all == pairs_of(attrs@),
            value_of(all, key@) == value_of(all.subrange(i as int, all.len() as int), key@),
        decreases attrs.len() - i,
    {
        let ghost rest = all.subrange(i as int, all.len() as int);
        proof {
            assert(rest.drop_first() == all.subrange(i + 1, all.len() as int));
            assert(rest[0] == all[i as int]);
        }
        if str_eq(attrs[i].0.as_str(), key) {
            return Some(attrs[i].1.clone());
        }
        i += 1;
    }
    None
}


/// `a` comes before `b` in the order of a dictionary, the characters in the
/// order of their code points.
pub open spec fn lex_less(a: Seq<char>, b: Seq<char>) -> bool
    decreases a.len(),
{
    if b.len() == 0 {
        false
    } else if a.len() == 0 {
        true
    } else if a[0] == b[0] {
        lex_less(a.drop_first(), b.drop_first())
    } else {
        (a[0] as u32) < (b[0] as u32)
    }
}

/// Whether `a` comes before `b` in the order of a dictionary.
pub fn text_less(a: &Vec<char>, b: &Vec<char>) -> (r: bool)
    ensures
        r == lex_less(a@, b@),
{
    let mut i: usize = 0;
    assert(a@.subrange(0, a@.len() as int) == a@);
    assert(b@.subrange(0, b@.len() as int) == b@);
    while i < a.len() && i < b.len()
        invariant
            i <= a.len(),
            i <= b.len(),
            lex_less(a@, b@) == lex_less(
                a@.subrange(i as int, a@.len() as int),
                b@.subrange(i as int, b@.len() as int),
            ),
        decreases a.len() - i,
    {
        let ghost ra = a@.subrange(i as int, a@.len() as int);
        let ghost rb = b@.subrange(i as int, b@.len() as int);
        proof {
            assert(ra[0] == a@[i as int] && rb[0] == b@[i as int]);
            assert(ra.drop_first() == a@.subrange(i + 1, a@.len() as int));
            assert(rb.drop_first() == b@.subrange(i + 1, b@.len() as int));
        }
        if a[i] != b[i] {
            return (a[i] as u32) < (b[i] as u32);
        }
        i += 1;
    }
    i < b.len()
}

/// Whether two texts hold the same characters.
pub fn text_eq(a: &Vec<char>, b: &Vec<char>) -> (r: bool)
    ensures
        r == (a@ == b@),
{
    if a.len() != b.len() {
        return false;
    }
    let mut i: usize = 0;
    while i < a.len()
        invariant
            i <= a.len(),
            a.len() == b.len(),
            forall|k: int| 0 <= k < i ==> a@[k] == b@[k],
        decreases a.len() - i,
    {
        if a[i] != b[i] {
            return false;
        }
        i += 1;
    }
    assert(a@ =~= b@);
    true
}

/// The names and values of `entries` as texts.
pub open spec fn entries_of(entries: Seq<(Vec<char>, Vec<char>)>) -> Seq<(Seq<char>, Seq<char>)> {
    Seq::new(entries.len(), |i: int| (entries[i].0@, entries[i].1@))
}

/// The list `list`, which is kept in the order of its names, with the
/// value `value` for the name `key`: in place of the value that the name
/// had, or at the place that the order gives it.
pub open spec fn upsert(list: Seq<(Seq<char>, Seq<char>)>, key: Seq<char>, value: Seq<char>) -> Seq<
    (Seq<char>, Seq<char>),
>
    decreases list.len(),
{
    if list.len() == 0 {
        seq![(key, value)]
    } else if list[0].0 == key {
        seq![(key, value)] + list.drop_first()
    } else if lex_less(key, list[0].0) {
        seq![(key, value)] + list
    } else {
        seq![list[0]] + upsert(list.drop_first(), key, value)
    }
}

/// The attributes `attrs` in the order of their names; where a name
/// occurs more than once, its last value counts.
pub open spec fn collected(attrs: Seq<(Seq<char>, Seq<char>)>) -> Seq<(Seq<char>, Seq<char>)>
    decreases attrs.len(),
{
    if attrs.len() == 0 {
        Seq::empty()
    } else {
        upsert(collected(attrs.drop_last()), attrs.last().0, attrs.last().1)
    }
}

/// Puts the value `value` for the name `key` into a list that is kept in
/// the order of its names.
pub fn upsert_entry(list: &mut Vec<(Vec<char>, Vec<char>)>, key: Vec<char>, value: Vec<char>)
    ensures
        entries_of(final(list)@) == upsert(entries_of(old(list)@), key@, value@),
{
    let ghost all = entries_of(list@);
    let ghost k = key@;
    let ghost v = value@;
    let mut i: usize = 0;
    proof {
        assert(all.subrange(0, all.len() as int) == all);
        assert(all.take(0) + upsert(all, k, v) == upsert(all, k, v));
    }
    while i < list.len()
        invariant
            i <= list.len(),
            list@ == old(list)@,
            all == entries_of(list@),
            k == key@,
            v == value@,
            upsert(all, k, v) == all.take(i as int) + upsert(all.subrange(i as int, all.len() as int), k, v),
        decreases list.len() - i,
    {
        let ghost rest = all.subrange(i as int, all.len() as int);
        proof {
            assert(rest[0] == all[i as int]);
            assert(rest.drop_first() == all.subrange(i + 1, all.len() as int));
        }
        if text_eq(&list[i].0, &key) {
            list.set(i, (key, value));
            proof {
                assert(entries_of(list@) =~= all.take(i as int) + (seq![(k, v)] + rest.drop_first()));
            }
            return;
        }
        if text_less(&key, &list[i].0) {
            list.insert(i, (key, value));
            proof {
                assert(entries_of(list@) =~= all.take(i as int) + (seq![(k, v)] + rest));
            }
            return;
        }
        proof {
            assert(all.take(i as int) + (seq![rest[0]] + upsert(rest.drop_first(), k, v)) == all.take(i + 1)
                + upsert(rest.drop_first(), k, v));
        }
        i += 1;
    }
    list.push((key, value));
    proof {
        assert(all.subrange(i as int, all.len() as int) == Seq::<(Seq<char>, Seq<char>)>::empty());
        assert(entries_of(list@) =~= all.take(i as int) + seq![(k, v)]);
    }
}

/// The attributes `attrs` in the order of their names.
pub fn collect_sorted(attrs: &Vec<(String, String)>) -> (r: Vec<(Vec<char>, Vec<char>)>)
    ensures
        entries_of(r@) == collected(pairs_of(attrs@)),
{
    let mut r: Vec<(Vec<char>, Vec<char>)> = Vec::new();
    let mut i: usize = 0;
    assert(entries_of(r@) =~= collected(pairs_of(attrs@).take(0)));
    while i < attrs.len()
        invariant
            i <= attrs.len(),
            entries_of(r@) == collected(pairs_of(attrs@).take(i as int)),
        decreases attrs.len() - i,
    {
        proof {
            let next = pairs_of(attrs@).take(i + 1);
            assert(next.drop_last() == pairs_of(attrs@).take(i as int));
            assert(next.last() == (attrs@[i as int].0@, attrs@[i as int].1@));
        }
        let key = chars_of(attrs[i].0.as_str());
        let value = chars_of(attrs[i].1.as_str());
        upsert_entry(&mut r, key, value);
        i += 1;
    }
    assert(pairs_of(attrs@).take(i as int) == pairs_of(attrs@));
    r
}

/// One attribute as it is written in a tag: the name, and the value
/// between quotes.
pub open spec fn attribute_text(entry: (Seq<char>, Seq<char>)) -> Seq<char> {
    entry.0 + seq!['=', '"'] + entry.1 + seq!['"']
}

/// Attributes as they are written in a tag, with one space between each
/// two.
pub open spec fn attributes_text(entries: Seq<(Seq<char>, Seq<char>)>) -> Seq<char>
    decreases entries.len(),
{
    if entries.len() == 0 {
        Seq::empty()
    } else if entries.len() == 1 {
        attribute_text(entries[0])
    } else {
        attributes_text(entries.drop_last()).push(' ') + attribute_text(entries.last())
    }
}

/// Appends all of `part` to `out`.
pub fn push_all(out: &mut Vec<char>, part: &Vec<char>)
    ensures
        final(out)@ == old(out)@ + part@,
{
    let mut k: usize = 0;
    assert(out@ == old(out)@ + part@.take(0));
    while k < part.len()
        invariant
            k <= part.len(),
            out@ == old(out)@ + part@.take(k as int),
        decreases part.len() - k,
    {
        out.push(part[k]);
        assert(out@ == old(out)@ + part@.take(k + 1));
        k += 1;
    }
    assert(part@.take(k as int) == part@);
}

/// Writes attributes as they stand in a tag.
pub fn write_attributes(entries: &Vec<(Vec<char>, Vec<char>)>) -> (r: Vec<char>)
    ensures
        r@ == attributes_text(entries_of(entries@)),
{
    let mut r: Vec<char> = Vec::new();
    let mut i: usize = 0;
    assert(entries_of(entries@).take(0) == Seq::<(Seq<char>, Seq<char>)>::empty());
    while i < entries.len()
        invariant
            i <= entries.len(),
            r@ == attributes_text(entries_of(entries@).take(i as int)),
        decreases entries.len() - i,
    {
        proof {
            let next = entries_of(entries@).take(i + 1);
            assert(next.drop_last() == entries_of(entries@).take(i as int));
            assert(next.last() == (entries@[i as int].0@, entries@[i as int].1@));
            if i == 0 {
                assert(next[0] == next.last());
            }
        }
        let ghost before = r@;
        if i > 0 {
            r.push(' ');
        }
        let ghost gap = r@;
        push_all(&mut r, &entries[i].0);
        r.push('=');
        r.push('"');
        push_all(&mut r, &entries[i].1);
        r.push('"');
        proof {
            let entry = (entries@[i as int].0@, entries@[i as int].1@);
            assert(r@ =~= gap + attribute_text(entry));
        }
        i += 1;
    }
    assert(entries_of(entries@).take(i as int) == entries_of(entries@));
    r
}

} // verus!
