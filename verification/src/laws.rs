//! The guarantees of the engine that relate several functions, each stated
//! and proved over the same models that the functions' contracts use.

use vstd::prelude::*;

use crate::adapters::{
    all_type_keys, independent_school_model, public_school_model, reduced_fax_code,
    reduced_fax_number, reduced_homepage, reduced_latitude, reduced_longitude, reduced_mail,
    reduced_phone_code, reduced_phone_identifier, reduced_phone_number,
};
use crate::reconcile::{
    filter_by_types, has_type_overlap, independent_kept, kept_independent_models,
    key_among_public, lemma_public_models_index, name_of_district_community, public_models,
    reconciled_schools,
};
use crate::types::{
    Building, Community, IndependetSchool, PublicSchool, SchoolModel, SchoolType, TypeModel,
};
use crate::vocab::{contains_type_key, resolved_types, type_for_key};

verus! {

/// Reducing a one-building list yields that building's fields unchanged: the
/// address comes from it, every optional field is its own value, and the type
/// set resolves from its keys alone.
pub proof fn lemma_single_building_reduction(p: PublicSchool, vocab: Seq<SchoolType>)
    requires
        p.buildings@.len() == 1,
    ensures
        public_school_model(p, vocab).street == p.buildings@[0].street@,
        public_school_model(p, vocab).street_name == p.buildings@[0].street_name@,
        public_school_model(p, vocab).house_number == p.buildings@[0].house_number@,
        public_school_model(p, vocab).postcode == p.buildings@[0].postcode@,
        public_school_model(p, vocab).community == p.buildings@[0].community@,
        public_school_model(p, vocab).longitude == p.buildings@[0].longitude,
        public_school_model(p, vocab).latitude == p.buildings@[0].latitude,
        public_school_model(p, vocab).phone_code == p.buildings@[0].phone_code.deep_view(),
        public_school_model(p, vocab).phone_number == p.buildings@[0].phone_number.deep_view(),
        public_school_model(p, vocab).phone_identifier == p.buildings@[0]
            .phone_identifier.deep_view(),
        public_school_model(p, vocab).fax_code == p.buildings@[0].fax_code.deep_view(),
        public_school_model(p, vocab).fax_number == p.buildings@[0].fax_number.deep_view(),
        public_school_model(p, vocab).mail == p.buildings@[0].mail.deep_view(),
        public_school_model(p, vocab).homepage == p.buildings@[0].homepage.deep_view(),
        public_school_model(p, vocab).school_types == resolved_types(
            vocab,
            p.buildings@[0].school_type_keys@,
        ),
{
    let bs = p.buildings@;
    let e = Seq::<Building>::empty();
    assert(bs.last() == bs[0]);
    assert(bs.drop_last() =~= e);
    assert(reduced_longitude(e) == None::<u64>);
    assert(reduced_latitude(e) == None::<u64>);
    assert(reduced_phone_code(e) == None::<Seq<char>>);
    assert(reduced_phone_number(e) == None::<Seq<char>>);
    assert(reduced_phone_identifier(e) == None::<Seq<char>>);
    assert(reduced_fax_code(e) == None::<Seq<char>>);
    assert(reduced_fax_number(e) == None::<Seq<char>>);
    assert(reduced_mail(e) == None::<Seq<char>>);
    assert(reduced_homepage(e) == None::<Seq<char>>);
    assert(all_type_keys(e) =~= Seq::<u32>::empty());
    assert(all_type_keys(bs) =~= bs[0].school_type_keys@);
}

/// A later building's present value wins, field by field: appending a building
/// overrides exactly the optional fields it carries and keeps the rest.
pub proof fn lemma_later_building_override(bs: Seq<Building>, b: Building)
    ensures
        reduced_longitude(bs.push(b)) == if b.longitude is Some {
            b.longitude
        } else {
            reduced_longitude(bs)
        },
        reduced_latitude(bs.push(b)) == if b.latitude is Some {
            b.latitude
        } else {
            reduced_latitude(bs)
        },
        reduced_phone_code(bs.push(b)) == if b.phone_code is Some {
            b.phone_code.deep_view()
        } else {
            reduced_phone_code(bs)
        },
        reduced_phone_number(bs.push(b)) == if b.phone_number is Some {
            b.phone_number.deep_view()
        } else {
            reduced_phone_number(bs)
        },
        reduced_phone_identifier(bs.push(b)) == if b.phone_identifier is Some {
            b.phone_identifier.deep_view()
        } else {
            reduced_phone_identifier(bs)
        },
        reduced_fax_code(bs.push(b)) == if b.fax_code is Some {
            b.fax_code.deep_view()
        } else {
            reduced_fax_code(bs)
        },
        reduced_fax_number(bs.push(b)) == if b.fax_number is Some {
            b.fax_number.deep_view()
        } else {
            reduced_fax_number(bs)
        },
        reduced_mail(bs.push(b)) == if b.mail is Some {
            b.mail.deep_view()
        } else {
            reduced_mail(bs)
        },
        reduced_homepage(bs.push(b)) == if b.homepage is Some {
            b.homepage.deep_view()
        } else {
            reduced_homepage(bs)
        },
{
    assert(bs.push(b).last() == b);
    assert(bs.push(b).drop_last() =~= bs);
}

/// The address fields of a public conversion come from the first building
/// alone, however many buildings follow it.
pub proof fn lemma_address_from_first_building(p: PublicSchool, vocab: Seq<SchoolType>)
    requires
        p.buildings@.len() > 0,
    ensures
        public_school_model(p, vocab).street == p.buildings@[0].street@,
        public_school_model(p, vocab).street_name == p.buildings@[0].street_name@,
        public_school_model(p, vocab).house_number == p.buildings@[0].house_number@,
        public_school_model(p, vocab).postcode == p.buildings@[0].postcode@,
        public_school_model(p, vocab).community == p.buildings@[0].community@,
{
}

/// The concatenated key list covers every building: each numeric key of each
/// building stands somewhere in it.
pub proof fn lemma_all_type_keys_contains(bs: Seq<Building>, i: int, j: int)
    requires
        0 <= i < bs.len(),
        0 <= j < bs[i].school_type_keys@.len(),
    ensures
        exists|k: int|
            0 <= k < all_type_keys(bs).len() && all_type_keys(bs)[k]
                == bs[i].school_type_keys@[j],
    decreases bs.len(),
{
    let pre = all_type_keys(bs.drop_last());
    if i == bs.len() - 1 {
        assert(all_type_keys(bs)[pre.len() + j] == bs[i].school_type_keys@[j]);
    } else {
        lemma_all_type_keys_contains(bs.drop_last(), i, j);
        let k = choose|k: int|
            0 <= k < pre.len() && pre[k] == bs.drop_last()[i].school_type_keys@[j];
        assert(all_type_keys(bs)[k] == bs[i].school_type_keys@[j]);
    }
}

/// A matched key is never lost to resolution: if some key of the list resolves
/// to a vocabulary entry, the resolved type set carries that entry's key.
pub proof fn lemma_resolved_types_complete(
    vocab: Seq<SchoolType>,
    keys: Seq<u32>,
    i: int,
    t: TypeModel,
)
    requires
        0 <= i < keys.len(),
        type_for_key(vocab, keys[i] as nat) == Some(t),
    ensures
        contains_type_key(resolved_types(vocab, keys), t.key),
    decreases keys.len(),
{
    let rest = resolved_types(vocab, keys.drop_last());
    if i == keys.len() - 1 {
        if !contains_type_key(rest, t.key) {
            assert(resolved_types(vocab, keys)[rest.len() as int] == t);
        }
    } else {
        lemma_resolved_types_complete(vocab, keys.drop_last(), i, t);
        let k = choose|k: int| 0 <= k < rest.len() && rest[k].key == t.key;
        assert(resolved_types(vocab, keys)[k].key == t.key);
    }
}

/// The type set of a public conversion is a union across all buildings: a key
/// offered by any building that the vocabulary knows contributes its entry.
pub proof fn lemma_type_union_across_buildings(
    p: PublicSchool,
    vocab: Seq<SchoolType>,
    i: int,
    j: int,
    t: TypeModel,
)
    requires
        0 <= i < p.buildings@.len(),
        0 <= j < p.buildings@[i].school_type_keys@.len(),
        type_for_key(vocab, p.buildings@[i].school_type_keys@[j] as nat) == Some(t),
    ensures
        contains_type_key(public_school_model(p, vocab).school_types, t.key),
{
    lemma_all_type_keys_contains(p.buildings@, i, j);
    let keys = all_type_keys(p.buildings@);
    let k = choose|k: int|
        0 <= k < keys.len() && keys[k] == p.buildings@[i].school_type_keys@[j];
    lemma_resolved_types_complete(vocab, keys, k, t);
}

/// Whether `s` is the public conversion of some record of the feed.
pub open spec fn from_public(s: SchoolModel, publics: Seq<PublicSchool>, vocab: Seq<SchoolType>) -> bool {
    exists|i: int| 0 <= i < publics.len() && s == public_school_model(publics[i], vocab)
}

/// Whether `s` is the independent conversion of some record that the selection
/// rule keeps.
pub open spec fn from_kept_independent(
    s: SchoolModel,
    indeps: Seq<IndependetSchool>,
    publics: Seq<PublicSchool>,
    vocab: Seq<SchoolType>,
    district_key: Seq<char>,
    communities: Seq<Community>,
) -> bool {
    exists|i: int|
        0 <= i < indeps.len() && independent_kept(indeps[i], publics, district_key, communities)
            && s == independent_school_model(indeps[i], vocab)
}

/// Every converted independent record arises from a record that the selection
/// rule keeps.
pub proof fn lemma_kept_indep_provenance(
    indeps: Seq<IndependetSchool>,
    publics: Seq<PublicSchool>,
    vocab: Seq<SchoolType>,
    district_key: Seq<char>,
    communities: Seq<Community>,
)
    ensures
        forall|k: int|
            0 <= k < kept_independent_models(
                indeps,
                publics,
                vocab,
                district_key,
                communities,
            ).len() ==> from_kept_independent(
                kept_independent_models(indeps, publics, vocab, district_key, communities)[k],
                indeps,
                publics,
                vocab,
                district_key,
                communities,
            ),
    decreases indeps.len(),
{
    let kim = kept_independent_models(indeps, publics, vocab, district_key, communities);
    if indeps.len() > 0 {
        let prior = indeps.drop_last();
        let kim0 = kept_independent_models(prior, publics, vocab, district_key, communities);
        lemma_kept_indep_provenance(prior, publics, vocab, district_key, communities);
        assert forall|k: int| 0 <= k < kim.len() implies from_kept_independent(
            kim[k],
            indeps,
            publics,
            vocab,
            district_key,
            communities,
        ) by {
            if k < kim0.len() {
                assert(kim[k] == kim0[k]);
                assert(from_kept_independent(
                    kim0[k],
                    prior,
                    publics,
                    vocab,
                    district_key,
                    communities,
                ));
                let i = choose|i: int|
                    0 <= i < prior.len() && independent_kept(
                        prior[i],
                        publics,
                        district_key,
                        communities,
                    ) && kim0[k] == independent_school_model(prior[i], vocab);
                assert(prior[i] == indeps[i]);
                assert(kim[k] == independent_school_model(indeps[i], vocab));
            } else {
                assert(independent_kept(indeps.last(), publics, district_key, communities));
                assert(kim[k] == independent_school_model(
                    indeps[indeps.len() - 1],
                    vocab,
                ));
            }
        }
    }
}

/// Distinct keys within the independent feed give distinct keys among its
/// converted survivors.
pub proof fn lemma_kept_indep_distinct(
    indeps: Seq<IndependetSchool>,
    publics: Seq<PublicSchool>,
    vocab: Seq<SchoolType>,
    district_key: Seq<char>,
    communities: Seq<Community>,
)
    requires
        forall|i: int, j: int|
            0 <= i < j < indeps.len() ==> indeps[i].institution_key@
                != indeps[j].institution_key@,
    ensures
        forall|k1: int, k2: int|
            0 <= k1 < k2 < kept_independent_models(
                indeps,
                publics,
                vocab,
                district_key,
                communities,
            ).len() ==> kept_independent_models(
                indeps,
                publics,
                vocab,
                district_key,
                communities,
            )[k1].institution_key != kept_independent_models(
                indeps,
                publics,
                vocab,
                district_key,
                communities,
            )[k2].institution_key,
    decreases indeps.len(),
{
    let kim = kept_independent_models(indeps, publics, vocab, district_key, communities);
    if indeps.len() > 0 {
        let prior = indeps.drop_last();
        let kim0 = kept_independent_models(prior, publics, vocab, district_key, communities);
        lemma_kept_indep_distinct(prior, publics, vocab, district_key, communities);
        lemma_kept_indep_provenance(prior, publics, vocab, district_key, communities);
        assert forall|k1: int, k2: int|
            0 <= k1 < k2 < kim.len() implies kim[k1].institution_key
            != kim[k2].institution_key by {
            if k2 < kim0.len() {
                assert(kim[k1] == kim0[k1] && kim[k2] == kim0[k2]);
            } else {
                assert(kim[k2] == independent_school_model(indeps[indeps.len() - 1], vocab));
                assert(kim[k1] == kim0[k1]);
                assert(from_kept_independent(
                    kim0[k1],
                    prior,
                    publics,
                    vocab,
                    district_key,
                    communities,
                ));
                let i = choose|i: int|
                    0 <= i < prior.len() && independent_kept(
                        prior[i],
                        publics,
                        district_key,
                        communities,
                    ) && kim0[k1] == independent_school_model(prior[i], vocab);
                assert(prior[i] == indeps[i]);
                assert(indeps[i].institution_key@ != indeps[indeps.len() - 1].institution_key@);
            }
        }
    }
}

/// The type filter keeps exactly the records whose type set meets the
/// requested set: a record stands in the filtered list precisely when it
/// stands in the input and its type set has a non-empty intersection, by key,
/// with the requested types.
pub proof fn lemma_type_filter_membership(
    ss: Seq<SchoolModel>,
    requested: Seq<SchoolType>,
    s: SchoolModel,
)
    ensures
        filter_by_types(ss, requested).contains(s) <==> (ss.contains(s) && has_type_overlap(
            s.school_types,
            requested,
        )),
    decreases ss.len(),
{
    let f = filter_by_types(ss, requested);
    if ss.len() == 0 {
        assert(!f.contains(s));
        assert(!ss.contains(s));
    } else {
        lemma_type_filter_membership(ss.drop_first(), requested, s);
        let f1 = filter_by_types(ss.drop_first(), requested);
        if has_type_overlap(ss.first().school_types, requested) {
            assert(f == seq![ss.first()] + f1);
            if f.contains(s) {
                let k = choose|k: int| 0 <= k < f.len() && f[k] == s;
                if k == 0 {
                    assert(ss[0] == s);
                    assert(ss.contains(s));
                } else {
                    assert(f1[k - 1] == s);
                    assert(f1.contains(s));
                    let m = choose|m: int| 0 <= m < ss.drop_first().len() && ss.drop_first()[m] == s;
                    assert(ss[m + 1] == s);
                    assert(ss.contains(s));
                }
            }
            if ss.contains(s) && has_type_overlap(s.school_types, requested) {
                let k = choose|k: int| 0 <= k < ss.len() && ss[k] == s;
                if k == 0 {
                    assert(f[0] == s);
                    assert(f.contains(s));
                } else {
                    assert(ss.drop_first()[k - 1] == s);
                    assert(ss.drop_first().contains(s));
                    let m = choose|m: int| 0 <= m < f1.len() && f1[m] == s;
                    assert(f[m + 1] == s);
                    assert(f.contains(s));
                }
            }
        } else {
            assert(f == f1);
            if f.contains(s) {
                let m = choose|m: int| 0 <= m < ss.drop_first().len() && ss.drop_first()[m] == s;
                assert(ss[m + 1] == s);
                assert(ss.contains(s));
            }
            if ss.contains(s) && has_type_overlap(s.school_types, requested) {
                let k = choose|k: int| 0 <= k < ss.len() && ss[k] == s;
                assert(k != 0);
                assert(ss.drop_first()[k - 1] == s);
                assert(ss.drop_first().contains(s));
            }
        }
    }
}

/// An independent-feed record whose community does not name a community of the
/// district contributes nothing: removing it leaves the converted survivors
/// unchanged.
pub proof fn lemma_community_scoping(
    indeps: Seq<IndependetSchool>,
    publics: Seq<PublicSchool>,
    vocab: Seq<SchoolType>,
    district_key: Seq<char>,
    communities: Seq<Community>,
    j: int,
)
    requires
        0 <= j < indeps.len(),
        !name_of_district_community(communities, district_key, indeps[j].community@),
    ensures
        kept_independent_models(indeps, publics, vocab, district_key, communities)
            == kept_independent_models(
            indeps.remove(j),
            publics,
            vocab,
            district_key,
            communities,
        ),
    decreases indeps.len(),
{
    assert(!independent_kept(indeps[j], publics, district_key, communities));
    if j == indeps.len() - 1 {
        assert(indeps.remove(j) =~= indeps.drop_last());
    } else {
        lemma_community_scoping(
            indeps.drop_last(),
            publics,
            vocab,
            district_key,
            communities,
            j,
        );
        assert(indeps.remove(j).drop_last() =~= indeps.drop_last().remove(j));
        assert(indeps.remove(j).last() == indeps.last());
    }
}

/// The filter loses no record and invents none, and it keeps keys distinct:
/// its output is drawn from its input, and pairwise-distinct institution keys
/// stay pairwise distinct.
pub proof fn lemma_filter_preserves_distinct_keys(ss: Seq<SchoolModel>, requested: Seq<SchoolType>)
    requires
        forall|i: int, j: int|
            0 <= i < j < ss.len() ==> ss[i].institution_key != ss[j].institution_key,
    ensures
        forall|k: int|
            0 <= k < filter_by_types(ss, requested).len() ==> ss.contains(
                filter_by_types(ss, requested)[k],
            ),
        forall|k1: int, k2: int|
            0 <= k1 < k2 < filter_by_types(ss, requested).len() ==> filter_by_types(
                ss,
                requested,
            )[k1].institution_key != filter_by_types(ss, requested)[k2].institution_key,
    decreases ss.len(),
{
    let f = filter_by_types(ss, requested);
    if ss.len() > 0 {
        let f1 = filter_by_types(ss.drop_first(), requested);
        lemma_filter_preserves_distinct_keys(ss.drop_first(), requested);
        assert forall|k: int| 0 <= k < f.len() implies ss.contains(f[k]) by {
            if has_type_overlap(ss.first().school_types, requested) && k == 0 {
                assert(ss[0] == f[0]);
            } else {
                let off: int = if has_type_overlap(ss.first().school_types, requested) {
                    1
                } else {
                    0
                };
                assert(f[k] == f1[k - off]);
                assert(ss.drop_first().contains(f1[k - off]));
                let m = choose|m: int|
                    0 <= m < ss.drop_first().len() && ss.drop_first()[m] == f1[k - off];
                assert(ss[m + 1] == f[k]);
            }
        }
        assert forall|k1: int, k2: int|
            0 <= k1 < k2 < f.len() implies f[k1].institution_key != f[k2].institution_key by {
            if has_type_overlap(ss.first().school_types, requested) && k1 == 0 {
                assert(f[k2] == f1[k2 - 1]);
                assert(ss.drop_first().contains(f1[k2 - 1]));
                let m = choose|m: int|
                    0 <= m < ss.drop_first().len() && ss.drop_first()[m] == f1[k2 - 1];
                assert(ss[m + 1] == f[k2]);
                assert(ss[0].institution_key != ss[m + 1].institution_key);
            } else {
                let off: int = if has_type_overlap(ss.first().school_types, requested) {
                    1
                } else {
                    0
                };
                assert(f[k1] == f1[k1 - off] && f[k2] == f1[k2 - off]);
            }
        }
    }
}

/// Deduplication precedence: with keys unique within each feed, the final
/// list carries each institution key at most once, and every final record is
/// either a public conversion or the independent conversion of a kept record
/// whose key the public feed does not carry — an institution known to both
/// feeds is represented once, by its public version.
pub proof fn lemma_dedup_precedence(
    publics: Seq<PublicSchool>,
    indeps: Seq<IndependetSchool>,
    vocab: Seq<SchoolType>,
    requested: Seq<SchoolType>,
    district_key: Seq<char>,
    communities: Seq<Community>,
)
    requires
        forall|i: int, j: int|
            0 <= i < j < publics.len() ==> publics[i].institution_key@
                != publics[j].institution_key@,
        forall|i: int, j: int|
            0 <= i < j < indeps.len() ==> indeps[i].institution_key@
                != indeps[j].institution_key@,
    ensures
        forall|k1: int, k2: int|
            0 <= k1 < k2 < reconciled_schools(
                publics,
                indeps,
                vocab,
                requested,
                district_key,
                communities,
            ).len() ==> reconciled_schools(
                publics,
                indeps,
                vocab,
                requested,
                district_key,
                communities,
            )[k1].institution_key != reconciled_schools(
                publics,
                indeps,
                vocab,
                requested,
                district_key,
                communities,
            )[k2].institution_key,
        forall|k: int|
            0 <= k < reconciled_schools(
                publics,
                indeps,
                vocab,
                requested,
                district_key,
                communities,
            ).len() ==> from_public(
                reconciled_schools(
                    publics,
                    indeps,
                    vocab,
                    requested,
                    district_key,
                    communities,
                )[k],
                publics,
                vocab,
            ) || (from_kept_independent(
                reconciled_schools(
                    publics,
                    indeps,
                    vocab,
                    requested,
                    district_key,
                    communities,
                )[k],
                indeps,
                publics,
                vocab,
                district_key,
                communities,
            ) && !key_among_public(
                publics,
                reconciled_schools(
                    publics,
                    indeps,
                    vocab,
                    requested,
                    district_key,
                    communities,
                )[k].institution_key,
            )),
{
    let pm = public_models(publics, vocab);
    let kim = kept_independent_models(indeps, publics, vocab, district_key, communities);
    let all = pm + kim;
    let r = reconciled_schools(publics, indeps, vocab, requested, district_key, communities);
    lemma_public_models_index(publics, vocab);
    lemma_kept_indep_provenance(indeps, publics, vocab, district_key, communities);
    lemma_kept_indep_distinct(indeps, publics, vocab, district_key, communities);
    assert forall|i: int, j: int|
        0 <= i < j < all.len() implies all[i].institution_key != all[j].institution_key by {
        if j < pm.len() {
            assert(all[i] == public_school_model(publics[i], vocab));
            assert(all[j] == public_school_model(publics[j], vocab));
        } else if i >= pm.len() {
            assert(all[i] == kim[i - pm.len()] && all[j] == kim[j - pm.len()]);
        } else {
            assert(all[i] == public_school_model(publics[i], vocab));
            assert(all[j] == kim[j - pm.len()]);
            let m = choose|m: int|
                0 <= m < indeps.len() && independent_kept(
                    indeps[m],
                    publics,
                    district_key,
                    communities,
                ) && all[j] == independent_school_model(indeps[m], vocab);
            assert(!key_among_public(publics, indeps[m].institution_key@));
            assert(publics[i].institution_key@ != indeps[m].institution_key@);
        }
    }
    lemma_filter_preserves_distinct_keys(all, requested);
    assert forall|k: int| 0 <= k < r.len() implies from_public(r[k], publics, vocab) || (
    from_kept_independent(r[k], indeps, publics, vocab, district_key, communities)
        && !key_among_public(publics, r[k].institution_key)) by {
        assert(all.contains(r[k]));
        let m = choose|m: int| 0 <= m < all.len() && all[m] == r[k];
        if m < pm.len() {
            assert(r[k] == public_school_model(publics[m], vocab));
            assert(from_public(r[k], publics, vocab));
        } else {
            assert(r[k] == kim[m - pm.len()]);
            let i = choose|i: int|
                0 <= i < indeps.len() && independent_kept(
                    indeps[i],
                    publics,
                    district_key,
                    communities,
                ) && r[k] == independent_school_model(indeps[i], vocab);
            assert(r[k].institution_key == indeps[i].institution_key@);
            assert(from_kept_independent(r[k], indeps, publics, vocab, district_key, communities));
        }
    }
}

} // verus!
