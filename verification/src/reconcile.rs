//! The reconciliation engine: merge the district-scoped public feed with the
//! community-scoped part of the independent feed, deduplicate institutions
//! that appear in both (the public feed wins), and keep only the records whose
//! resolved type set meets the requested type set.

use vstd::prelude::*;

use crate::adapters::{independent_school_model, public_school_model};
use crate::types::{
    Community, District, IndependetSchool, PublicSchool, School, SchoolModel, SchoolType,
    TypeModel,
};

verus! {

/// Whether `p` is a prefix of `s`.
pub open spec fn has_prefix(s: Seq<char>, p: Seq<char>) -> bool {
    p.len() <= s.len() && s.subrange(0, p.len() as int) == p
}

/// A community belongs to a district when its key starts with the district's
/// key: the only linkage between the independent feed and a chosen district.
pub open spec fn community_in_district(c: Community, district_key: Seq<char>) -> bool {
    has_prefix(c.key@, district_key)
}

/// Whether `name` names a community that belongs to the district.
pub open spec fn name_of_district_community(
    communities: Seq<Community>,
    district_key: Seq<char>,
    name: Seq<char>,
) -> bool {
    exists|i: int|
        0 <= i < communities.len() && community_in_district(communities[i], district_key)
            && communities[i].name@ == name
}

/// Whether some public-feed record carries this institution key.
pub open spec fn key_among_public(publics: Seq<PublicSchool>, key: Seq<char>) -> bool {
    exists|i: int| 0 <= i < publics.len() && publics[i].institution_key@ == key
}

/// The selection rule for an independent-feed record: its community must name
/// a community of the district, and its institution key must not already
/// appear in the public feed (the public version wins).
pub open spec fn independent_kept(
    p: IndependetSchool,
    publics: Seq<PublicSchool>,
    district_key: Seq<char>,
    communities: Seq<Community>,
) -> bool {
    !key_among_public(publics, p.institution_key@) && name_of_district_community(
        communities,
        district_key,
        p.community@,
    )
}

/// The public feed converted record by record, in feed order.
pub open spec fn public_models(ps: Seq<PublicSchool>, vocab: Seq<SchoolType>) -> Seq<SchoolModel>
    decreases ps.len(),
{
    if ps.len() == 0 {
        Seq::empty()
    } else {
        public_models(ps.drop_last(), vocab).push(public_school_model(ps.last(), vocab))
    }
}

/// The surviving independent-feed records converted in feed order.
pub open spec fn kept_independent_models(
    indeps: Seq<IndependetSchool>,
    publics: Seq<PublicSchool>,
    vocab: Seq<SchoolType>,
    district_key: Seq<char>,
    communities: Seq<Community>,
) -> Seq<SchoolModel>
    decreases indeps.len(),
{
    if indeps.len() == 0 {
        Seq::empty()
    } else {
        let rest = kept_independent_models(
            indeps.drop_last(),
            publics,
            vocab,
            district_key,
            communities,
        );
        if independent_kept(indeps.last(), publics, district_key, communities) {
            rest.push(independent_school_model(indeps.last(), vocab))
        } else {
            rest
        }
    }
}

/// Whether the resolved type set meets the requested type set: a non-empty
/// intersection by key, not containment.
pub open spec fn has_type_overlap(ts: Seq<TypeModel>, requested: Seq<SchoolType>) -> bool {
    exists|i: int, j: int|
        0 <= i < ts.len() && 0 <= j < requested.len() && ts[i].key == requested[j].key@
}

/// The final type filter: keep a record exactly when its type set meets the
/// requested set.
pub open spec fn filter_by_types(ss: Seq<SchoolModel>, requested: Seq<SchoolType>) -> Seq<
    SchoolModel,
>
    decreases ss.len(),
{
    if ss.len() == 0 {
        Seq::empty()
    } else if has_type_overlap(ss.first().school_types, requested) {
        seq![ss.first()] + filter_by_types(ss.drop_first(), requested)
    } else {
        filter_by_types(ss.drop_first(), requested)
    }
}

/// The whole engine: public records first, then the surviving independent
/// records, then the type filter over the concatenation.
pub open spec fn reconciled_schools(
    publics: Seq<PublicSchool>,
    indeps: Seq<IndependetSchool>,
    vocab: Seq<SchoolType>,
    requested: Seq<SchoolType>,
    district_key: Seq<char>,
    communities: Seq<Community>,
) -> Seq<SchoolModel> {
    filter_by_types(
        public_models(publics, vocab) + kept_independent_models(
            indeps,
            publics,
            vocab,
            district_key,
            communities,
        ),
        requested,
    )
}

/// `public_models` maps the feed record by record.
pub proof fn lemma_public_models_index(ps: Seq<PublicSchool>, vocab: Seq<SchoolType>)
    ensures
        public_models(ps, vocab).len() == ps.len(),
        forall|i: int|
            0 <= i < ps.len() ==> public_models(ps, vocab)[i] == public_school_model(
                ps[i],
                vocab,
            ),
    decreases ps.len(),
{
    if ps.len() > 0 {
        lemma_public_models_index(ps.drop_last(), vocab);
        assert(forall|i: int| 0 <= i < ps.len() - 1 ==> ps.drop_last()[i] == ps[i]);
    }
}

/// Whether `p` is a prefix of `s`.
pub fn string_has_prefix(s: &String, p: &String) -> (r: bool)
    ensures
        r == has_prefix(s@, p@),
{
    let sl = s.as_str().unicode_len();
    let pl = p.as_str().unicode_len();
    if pl > sl {
        return false;
    }
    let mut i: usize = 0;
    while i < pl
        invariant
            pl == p@.len() && sl == s@.len() && pl <= sl,
            i <= pl,
            forall|k: int| 0 <= k < i ==> s@[k] == p@[k],
        decreases pl - i,
    {
        if s.as_str().get_char(i) != p.as_str().get_char(i) {
            proof {
                assert(s@.subrange(0, p@.len() as int)[i as int] == s@[i as int]);
            }
            return false;
        }
        i = i + 1;
    }
    proof {
        assert(s@.subrange(0, p@.len() as int) =~= p@);
    }
    true
}

/// Whether `name` names a community of the district.
pub fn name_in_district(
    communities: &Vec<Community>,
    district: &District,
    name: &String,
) -> (r: bool)
    ensures
        r == name_of_district_community(communities@, district.key@, name@),
{
    let mut i: usize = 0;
    while i < communities.len()
        invariant
            i <= communities@.len(),
            forall|k: int|
                0 <= k < i ==> !(community_in_district(communities@[k], district.key@)
                    && communities@[k].name@ == name@),
        decreases communities@.len() - i,
    {
        if string_has_prefix(&communities[i].key, &district.key) && communities[i].name == *name {
            return true;
        }
        i = i + 1;
    }
    false
}

/// Whether some already converted record carries this institution key.
fn key_among_schools(schools: &Vec<School>, key: &String) -> (r: bool)
    ensures
        r == exists|i: int| 0 <= i < schools@.len() && schools@[i].institution_key@ == key@,
{
    let mut i: usize = 0;
    while i < schools.len()
        invariant
            i <= schools@.len(),
            forall|k: int| 0 <= k < i ==> schools@[k].institution_key@ != key@,
        decreases schools@.len() - i,
    {
        if schools[i].institution_key == *key {
            return true;
        }
        i = i + 1;
    }
    false
}

/// Whether the two type lists share an entry, compared by key.
pub fn types_overlap(ts: &Vec<SchoolType>, requested: &Vec<SchoolType>) -> (r: bool)
    ensures
        r == has_type_overlap(ts.deep_view(), requested@),
{
    let mut i: usize = 0;
    while i < ts.len()
        invariant
            i <= ts@.len(),
            forall|k: int, j: int|
                0 <= k < i && 0 <= j < requested@.len() ==> ts.deep_view()[k].key
                    != requested@[j].key@,
        decreases ts@.len() - i,
    {
        let mut j: usize = 0;
        while j < requested.len()
            invariant
                i < ts@.len(),
                j <= requested@.len(),
                forall|jj: int| 0 <= jj < j ==> ts.deep_view()[i as int].key != requested@[jj].key@,
            decreases requested@.len() - j,
        {
            if ts[i].key == requested[j].key {
                proof {
                    assert(ts.deep_view()[i as int].key == requested@[j as int].key@);
                }
                return true;
            }
            j = j + 1;
        }
        i = i + 1;
    }
    false
}

/// Merge, deduplicate and filter: the final record list for a district.
///
/// `public_schools` is the public feed already scoped to the district by the
/// caller's fetch; `independent_schools` is the entire independent feed, which
/// has no district parameter and is scoped here through the community table.
/// `possible_school_types` is the full vocabulary used for resolution;
/// `requested_school_types` is the caller's selection used for the final
/// filter. Every public record must carry at least one building.
pub fn schools_of_types_in_district(
    public_schools: Vec<PublicSchool>,
    independent_schools: Vec<IndependetSchool>,
    possible_school_types: &Vec<SchoolType>,
    requested_school_types: &Vec<SchoolType>,
    district: &District,
    all_communities: &Vec<Community>,
) -> (r: Vec<School>)
    requires
        forall|i: int|
            0 <= i < public_schools@.len() ==> public_schools@[i].buildings@.len() > 0,
    ensures
        r.deep_view() == reconciled_schools(
            public_schools@,
            independent_schools@,
            possible_school_types@,
            requested_school_types@,
            district.key@,
            all_communities@,
        ),
{
    let ghost ps0 = public_schools@;
    let ghost is0 = independent_schools@;
    let ghost vocab = possible_school_types@;
    let ghost dk = district.key@;
    let ghost cs = all_communities@;

    // Convert the public feed, in feed order.
    let mut publics = public_schools;
    let mut schools: Vec<School> = Vec::new();
    proof {
        assert(ps0.skip(0) =~= ps0);
        assert(ps0.take(0) =~= Seq::<PublicSchool>::empty());
    }
    while publics.len() > 0
        invariant
            publics@.len() <= ps0.len(),
            publics@ == ps0.skip(ps0.len() - publics@.len()),
            schools.deep_view() == public_models(ps0.take(ps0.len() - publics@.len()), vocab),
            vocab == possible_school_types@,
            forall|i: int| 0 <= i < ps0.len() ==> ps0[i].buildings@.len() > 0,
        decreases publics@.len(),
    {
        let ghost n = ps0.len() - publics@.len();
        let ghost schools0 = schools.deep_view();
        proof {
            assert(publics@[0] == ps0[n]);
        }
        let p = publics.remove(0);
        let s = p.into_school(possible_school_types);
        schools.push(s);
        proof {
            assert(publics@ =~= ps0.skip(n + 1));
            assert(ps0.take(n + 1).drop_last() =~= ps0.take(n));
            assert(ps0.take(n + 1).last() == ps0[n]);
            assert(schools.deep_view() =~= schools0.push(s@));
        }
    }
    proof {
        assert(ps0.take(ps0.len() as int) =~= ps0);
    }

    // Select and convert the independent feed: community in district, key not
    // already among the public results.
    let mut indeps = independent_schools;
    let mut indep_schools: Vec<School> = Vec::new();
    proof {
        assert(is0.skip(0) =~= is0);
        assert(is0.take(0) =~= Seq::<IndependetSchool>::empty());
    }
    while indeps.len() > 0
        invariant
            indeps@.len() <= is0.len(),
            indeps@ == is0.skip(is0.len() - indeps@.len()),
            indep_schools.deep_view() == kept_independent_models(
                is0.take(is0.len() - indeps@.len()),
                ps0,
                vocab,
                dk,
                cs,
            ),
            schools.deep_view() == public_models(ps0, vocab),
            vocab == possible_school_types@,
            dk == district.key@,
            cs == all_communities@,
        decreases indeps@.len(),
    {
        let ghost n = is0.len() - indeps@.len();
        let ghost kept0 = indep_schools.deep_view();
        proof {
            assert(indeps@[0] == is0[n]);
        }
        let p = indeps.remove(0);
        let dup = key_among_schools(&schools, &p.institution_key);
        proof {
            lemma_public_models_index(ps0, vocab);
            assert(schools.deep_view().len() == schools@.len());
            assert(schools@.len() == ps0.len());
            assert forall|i: int|
                0 <= i < ps0.len() implies schools@[i].institution_key@
                == ps0[i].institution_key@ by {
                assert(schools.deep_view()[i] == schools@[i].deep_view());
                assert(schools.deep_view()[i] == public_school_model(ps0[i], vocab));
            }
            if dup {
                let i = choose|i: int|
                    0 <= i < schools@.len() && schools@[i].institution_key@
                        == p.institution_key@;
                assert(ps0[i].institution_key@ == p.institution_key@);
                assert(key_among_public(ps0, p.institution_key@));
            } else if key_among_public(ps0, p.institution_key@) {
                let i = choose|i: int|
                    0 <= i < ps0.len() && ps0[i].institution_key@ == p.institution_key@;
                assert(schools@[i].institution_key@ == p.institution_key@);
                assert(false);
            }
            assert(dup == key_among_public(ps0, p.institution_key@));
        }
        let in_district = name_in_district(all_communities, district, &p.community);
        if !dup && in_district {
            let s = p.into_school(possible_school_types);
            indep_schools.push(s);
            proof {
                assert(indep_schools.deep_view() =~= kept0.push(s@));
            }
        }
        proof {
            assert(indeps@ =~= is0.skip(n + 1));
            assert(is0.take(n + 1).drop_last() =~= is0.take(n));
            assert(is0.take(n + 1).last() == is0[n]);
        }
    }
    proof {
        assert(is0.take(is0.len() as int) =~= is0);
    }

    // Concatenate (public records first) and apply the type filter.
    let mut merged = schools;
    merged.append(&mut indep_schools);
    let ghost all = merged.deep_view();
    proof {
        assert(all =~= public_models(ps0, vocab) + kept_independent_models(
            is0,
            ps0,
            vocab,
            dk,
            cs,
        ));
    }
    let mut result: Vec<School> = Vec::new();
    proof {
        assert(result.deep_view() + filter_by_types(merged.deep_view(), requested_school_types@)
            =~= filter_by_types(all, requested_school_types@));
    }
    while merged.len() > 0
        invariant
            result.deep_view() + filter_by_types(merged.deep_view(), requested_school_types@)
                == filter_by_types(all, requested_school_types@),
        decreases merged@.len(),
    {
        let ghost before = merged.deep_view();
        let ghost result0 = result.deep_view();
        let s = merged.remove(0);
        proof {
            assert(merged.deep_view() =~= before.drop_first());
            assert(before.first() == s@);
        }
        let keep = types_overlap(&s.school_types, requested_school_types);
        if keep {
            result.push(s);
            proof {
                assert(result.deep_view() =~= result0.push(s@));
                assert(result0.push(s@) + filter_by_types(
                    merged.deep_view(),
                    requested_school_types@,
                ) =~= result0 + (seq![before.first()] + filter_by_types(
                    before.drop_first(),
                    requested_school_types@,
                )));
            }
        }
    }
    proof {
        assert(merged.deep_view() =~= Seq::<SchoolModel>::empty());
        assert(filter_by_types(Seq::<SchoolModel>::empty(), requested_school_types@)
            =~= Seq::<SchoolModel>::empty());
        assert(result.deep_view() =~= filter_by_types(all, requested_school_types@));
    }
    result
}

} // verus!
