//! The one export-facing transformation the data model anticipates: a record's
//! type set flattened to a comma-separated list of keys.

use vstd::prelude::*;

use crate::types::SchoolType;

verus! {

/// The keys of the entries, joined with a comma and a space.
pub open spec fn joined_keys(ts: Seq<SchoolType>) -> Seq<char>
    decreases ts.len(),
{
    if ts.len() == 0 {
        Seq::empty()
    } else if ts.len() == 1 {
        ts[0].key@
    } else {
        joined_keys(ts.drop_last()) + ", "@ + ts.last().key@
    }
}

/// Flatten a type list to the comma-separated string of its keys.
pub fn school_type_keys_string(ts: &Vec<SchoolType>) -> (r: String)
    ensures
        r@ == joined_keys(ts@),
{
    let mut r = String::new();
    let mut i: usize = 0;
    proof {
        assert(joined_keys(ts@.subrange(0, 0)) =~= Seq::<char>::empty());
        assert(r@ =~= joined_keys(ts@.subrange(0, 0)));
    }
    while i < ts.len()
        invariant
            i <= ts@.len(),
            r@ == joined_keys(ts@.subrange(0, i as int)),
        decreases ts@.len() - i,
    {
        let ghost r0 = r@;
        if i > 0 {
            r.append(", ");
        }
        r.append(ts[i].key.as_str());
        proof {
            let taken = ts@.subrange(0, i as int + 1);
            assert(taken.drop_last() =~= ts@.subrange(0, i as int));
            assert(taken.last() == ts@[i as int]);
            if i == 0 {
                assert(r@ =~= joined_keys(taken));
            } else {
                assert(r@ =~= joined_keys(taken));
            }
        }
        i = i + 1;
    }
    proof {
        assert(ts@.subrange(0, ts@.len() as int) =~= ts@);
    }
    r
}

} // verus!
