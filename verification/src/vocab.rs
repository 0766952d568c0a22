//! Resolution of source-feed type references into the shared vocabulary.
//!
//! The public feed references a school type by numeric key; the independent
//! feed by label. Both resolve to the first matching vocabulary entry, and a
//! reference with no match is silently dropped (the upstream vocabularies
//! evolve independently of any one request).

use vstd::prelude::*;

use crate::decimal::{spec_decimal, str_equals_decimal};
use crate::types::{SchoolType, TypeModel};

verus! {

/// The first vocabulary entry whose key reads as the decimal digits of `key`,
/// if any.
pub open spec fn type_for_key(vocab: Seq<SchoolType>, key: nat) -> Option<TypeModel>
    decreases vocab.len(),
{
    if vocab.len() == 0 {
        None
    } else if vocab.first().key@ == spec_decimal(key) {
        Some(vocab.first()@)
    } else {
        type_for_key(vocab.drop_first(), key)
    }
}

/// The first vocabulary entry carrying exactly this label, if any.
pub open spec fn type_for_label(vocab: Seq<SchoolType>, label: Seq<char>) -> Option<TypeModel>
    decreases vocab.len(),
{
    if vocab.len() == 0 {
        None
    } else if vocab.first().label@ == label {
        Some(vocab.first()@)
    } else {
        type_for_label(vocab.drop_first(), label)
    }
}

/// Look a numeric type key of the public feed up in the vocabulary.
pub fn find_type_by_key(vocab: &Vec<SchoolType>, key: u32) -> (r: Option<SchoolType>)
    ensures
        r.deep_view() == type_for_key(vocab@, key as nat),
{
    let mut i: usize = 0;
    proof {
        assert(vocab@.skip(0) =~= vocab@);
    }
    while i < vocab.len()
        invariant
            i <= vocab@.len(),
            type_for_key(vocab@, key as nat) == type_for_key(
                vocab@.skip(i as int),
                key as nat,
            ),
        decreases vocab@.len() - i,
    {
        proof {
            assert(vocab@.skip(i as int).first() == vocab@[i as int]);
            assert(vocab@.skip(i as int).drop_first() =~= vocab@.skip(i as int + 1));
        }
        if str_equals_decimal(vocab[i].key.as_str(), key) {
            return Some(vocab[i].clone());
        }
        i = i + 1;
    }
    proof {
        assert(vocab@.skip(i as int) =~= Seq::<SchoolType>::empty());
    }
    None
}

/// Look a type label of the independent feed up in the vocabulary.
pub fn find_type_by_label(vocab: &Vec<SchoolType>, label: &String) -> (r: Option<SchoolType>)
    ensures
        r.deep_view() == type_for_label(vocab@, label@),
{
    let mut i: usize = 0;
    proof {
        assert(vocab@.skip(0) =~= vocab@);
    }
    while i < vocab.len()
        invariant
            i <= vocab@.len(),
            type_for_label(vocab@, label@) == type_for_label(vocab@.skip(i as int), label@),
        decreases vocab@.len() - i,
    {
        proof {
            assert(vocab@.skip(i as int).first() == vocab@[i as int]);
            assert(vocab@.skip(i as int).drop_first() =~= vocab@.skip(i as int + 1));
        }
        if vocab[i].label == *label {
            return Some(vocab[i].clone());
        }
        i = i + 1;
    }
    proof {
        assert(vocab@.skip(i as int) =~= Seq::<SchoolType>::empty());
    }
    None
}

/// Whether some entry of the list already carries this key.
pub open spec fn contains_type_key(ts: Seq<TypeModel>, key: Seq<char>) -> bool {
    exists|i: int| 0 <= i < ts.len() && ts[i].key == key
}

/// Whether some entry of the list already carries the key of `t`.
pub fn contains_type_with_key(ts: &Vec<SchoolType>, t: &SchoolType) -> (r: bool)
    ensures
        r == contains_type_key(ts.deep_view(), t.key@),
{
    let mut i: usize = 0;
    while i < ts.len()
        invariant
            i <= ts@.len(),
            forall|k: int| 0 <= k < i ==> ts.deep_view()[k].key != t.key@,
        decreases ts@.len() - i,
    {
        if ts[i].key == t.key {
            proof {
                assert(ts.deep_view()[i as int].key == t.key@);
            }
            return true;
        }
        i = i + 1;
    }
    false
}

/// The vocabulary entries for a list of numeric type keys, in order of first
/// appearance, each entry once (repeated keys resolve to one entry), keys
/// without a match dropped.
pub open spec fn resolved_types(vocab: Seq<SchoolType>, keys: Seq<u32>) -> Seq<TypeModel>
    decreases keys.len(),
{
    if keys.len() == 0 {
        Seq::empty()
    } else {
        let rest = resolved_types(vocab, keys.drop_last());
        match type_for_key(vocab, keys.last() as nat) {
            Some(t) => if contains_type_key(rest, t.key) {
                rest
            } else {
                rest.push(t)
            },
            None => rest,
        }
    }
}

/// Resolve a list of numeric type keys against the vocabulary: the matched
/// entries in order of first appearance, duplicates (by key) removed.
pub fn resolve_type_keys(vocab: &Vec<SchoolType>, keys: &Vec<u32>) -> (r: Vec<SchoolType>)
    ensures
        r.deep_view() == resolved_types(vocab@, keys@),
{
    let mut r: Vec<SchoolType> = Vec::new();
    let mut j: usize = 0;
    while j < keys.len()
        invariant
            j <= keys@.len(),
            r.deep_view() == resolved_types(vocab@, keys@.subrange(0, j as int)),
        decreases keys@.len() - j,
    {
        let ghost taken = keys@.subrange(0, j as int);
        proof {
            assert(keys@.subrange(0, j as int + 1).drop_last() =~= taken);
            assert(keys@.subrange(0, j as int + 1).last() == keys@[j as int]);
        }
        match find_type_by_key(vocab, keys[j]) {
            Some(t) => {
                if !contains_type_with_key(&r, &t) {
                    let ghost r0 = r.deep_view();
                    r.push(t);
                    proof {
                        assert(r.deep_view() =~= r0.push(t@));
                    }
                }
            },
            None => {},
        }
        j = j + 1;
    }
    proof {
        assert(keys@.subrange(0, keys@.len() as int) =~= keys@);
    }
    r
}

} // verus!
