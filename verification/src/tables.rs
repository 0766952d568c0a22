//! Load-time cleaning of the district and community key tables: the upstream
//! tables carry sentinel and aggregate rows that no lookup may see.

use vstd::prelude::*;

use crate::types::{Community, District};

verus! {

/// A district row survives when its key has five characters and is not the
/// all-zero sentinel.
pub open spec fn district_kept(d: District) -> bool {
    d.key@.len() == 5 && d.key@ != "00000"@
}

/// The district rows that survive, in table order.
pub open spec fn kept_districts(ds: Seq<District>) -> Seq<District>
    decreases ds.len(),
{
    if ds.len() == 0 {
        Seq::empty()
    } else if district_kept(ds.first()) {
        seq![ds.first()] + kept_districts(ds.drop_first())
    } else {
        kept_districts(ds.drop_first())
    }
}

/// A community row survives when its key is not the all-zero sentinel.
pub open spec fn community_kept(c: Community) -> bool {
    c.key@ != "00000000"@
}

/// The community rows that survive, in table order.
pub open spec fn kept_communities(cs: Seq<Community>) -> Seq<Community>
    decreases cs.len(),
{
    if cs.len() == 0 {
        Seq::empty()
    } else if community_kept(cs.first()) {
        seq![cs.first()] + kept_communities(cs.drop_first())
    } else {
        kept_communities(cs.drop_first())
    }
}

/// Drop malformed and sentinel district rows.
pub fn filter_districts(districts: Vec<District>) -> (r: Vec<District>)
    ensures
        r@ == kept_districts(districts@),
{
    let ghost all = districts@;
    let sentinel = String::from_str("00000");
    let mut rest = districts;
    let mut r: Vec<District> = Vec::new();
    proof {
        assert(r@ + kept_districts(rest@) =~= kept_districts(all));
    }
    while rest.len() > 0
        invariant
            sentinel@ == "00000"@,
            r@ + kept_districts(rest@) == kept_districts(all),
        decreases rest@.len(),
    {
        let ghost before = rest@;
        let ghost r0 = r@;
        let d = rest.remove(0);
        proof {
            assert(rest@ =~= before.drop_first());
            assert(before.first() == d);
        }
        if d.key.as_str().unicode_len() == 5 && !(d.key == sentinel) {
            r.push(d);
            proof {
                assert(r@ =~= r0.push(d));
                assert(r0.push(d) + kept_districts(rest@) =~= r0 + (seq![before.first()]
                    + kept_districts(before.drop_first())));
            }
        }
    }
    proof {
        assert(rest@ =~= Seq::<District>::empty());
        assert(kept_districts(Seq::<District>::empty()) =~= Seq::<District>::empty());
        assert(r@ =~= kept_districts(all));
    }
    r
}

/// Drop the sentinel community row.
pub fn filter_communities(communities: Vec<Community>) -> (r: Vec<Community>)
    ensures
        r@ == kept_communities(communities@),
{
    let ghost all = communities@;
    let sentinel = String::from_str("00000000");
    let mut rest = communities;
    let mut r: Vec<Community> = Vec::new();
    proof {
        assert(r@ + kept_communities(rest@) =~= kept_communities(all));
    }
    while rest.len() > 0
        invariant
            sentinel@ == "00000000"@,
            r@ + kept_communities(rest@) == kept_communities(all),
        decreases rest@.len(),
    {
        let ghost before = rest@;
        let ghost r0 = r@;
        let c = rest.remove(0);
        proof {
            assert(rest@ =~= before.drop_first());
            assert(before.first() == c);
        }
        if !(c.key == sentinel) {
            r.push(c);
            proof {
                assert(r@ =~= r0.push(c));
                assert(r0.push(c) + kept_communities(rest@) =~= r0 + (seq![before.first()]
                    + kept_communities(before.drop_first())));
            }
        }
    }
    proof {
        assert(rest@ =~= Seq::<Community>::empty());
        assert(kept_communities(Seq::<Community>::empty()) =~= Seq::<Community>::empty());
        assert(r@ =~= kept_communities(all));
    }
    r
}

} // verus!
