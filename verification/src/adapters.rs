//! The two source adapters: each converts one upstream record shape into the
//! canonical `School` record, resolving its type references through the shared
//! vocabulary.
//!
//! The public adapter also collapses an institution's building list into one
//! location record: address fields come from the first building alone (the
//! registered address), while each optional contact or coordinate field is
//! folded left to right, a later building's present value overwriting the
//! running one.

use vstd::prelude::*;

use crate::types::{Building, IndependetSchool, PublicSchool, School, SchoolModel, SchoolType};
use crate::vocab::{find_type_by_label, resolve_type_keys, resolved_types, type_for_label};

verus! {

/// Every building's numeric type keys, concatenated in feed order.
pub open spec fn all_type_keys(bs: Seq<Building>) -> Seq<u32>
    decreases bs.len(),
{
    if bs.len() == 0 {
        Seq::empty()
    } else {
        all_type_keys(bs.drop_last()) + bs.last().school_type_keys@
    }
}

/// The longitude of the last building that has one, if any.
pub open spec fn reduced_longitude(bs: Seq<Building>) -> Option<u64>
    decreases bs.len(),
{
    if bs.len() == 0 {
        None
    } else if bs.last().longitude is Some {
        bs.last().longitude
    } else {
        reduced_longitude(bs.drop_last())
    }
}

/// The latitude of the last building that has one, if any.
pub open spec fn reduced_latitude(bs: Seq<Building>) -> Option<u64>
    decreases bs.len(),
{
    if bs.len() == 0 {
        None
    } else if bs.last().latitude is Some {
        bs.last().latitude
    } else {
        reduced_latitude(bs.drop_last())
    }
}

/// The phone code of the last building that has one, if any.
pub open spec fn reduced_phone_code(bs: Seq<Building>) -> Option<Seq<char>>
    decreases bs.len(),
{
    if bs.len() == 0 {
        None
    } else if bs.last().phone_code is Some {
        bs.last().phone_code.deep_view()
    } else {
        reduced_phone_code(bs.drop_last())
    }
}

/// The phone number of the last building that has one, if any.
pub open spec fn reduced_phone_number(bs: Seq<Building>) -> Option<Seq<char>>
    decreases bs.len(),
{
    if bs.len() == 0 {
        None
    } else if bs.last().phone_number is Some {
        bs.last().phone_number.deep_view()
    } else {
        reduced_phone_number(bs.drop_last())
    }
}

/// The phone identifier of the last building that has one, if any.
pub open spec fn reduced_phone_identifier(bs: Seq<Building>) -> Option<Seq<char>>
    decreases bs.len(),
{
    if bs.len() == 0 {
        None
    } else if bs.last().phone_identifier is Some {
        bs.last().phone_identifier.deep_view()
    } else {
        reduced_phone_identifier(bs.drop_last())
    }
}

/// The fax code of the last building that has one, if any.
pub open spec fn reduced_fax_code(bs: Seq<Building>) -> Option<Seq<char>>
    decreases bs.len(),
{
    if bs.len() == 0 {
        None
    } else if bs.last().fax_code is Some {
        bs.last().fax_code.deep_view()
    } else {
        reduced_fax_code(bs.drop_last())
    }
}

/// The fax number of the last building that has one, if any.
pub open spec fn reduced_fax_number(bs: Seq<Building>) -> Option<Seq<char>>
    decreases bs.len(),
{
    if bs.len() == 0 {
        None
    } else if bs.last().fax_number is Some {
        bs.last().fax_number.deep_view()
    } else {
        reduced_fax_number(bs.drop_last())
    }
}

/// The mail address of the last building that has one, if any.
pub open spec fn reduced_mail(bs: Seq<Building>) -> Option<Seq<char>>
    decreases bs.len(),
{
    if bs.len() == 0 {
        None
    } else if bs.last().mail is Some {
        bs.last().mail.deep_view()
    } else {
        reduced_mail(bs.drop_last())
    }
}

/// The homepage of the last building that has one, if any.
pub open spec fn reduced_homepage(bs: Seq<Building>) -> Option<Seq<char>>
    decreases bs.len(),
{
    if bs.len() == 0 {
        None
    } else if bs.last().homepage is Some {
        bs.last().homepage.deep_view()
    } else {
        reduced_homepage(bs.drop_last())
    }
}

/// The canonical record that the public adapter produces: address fields from
/// the first building, optional fields folded "last present value wins", and
/// the type set resolved as the union of every building's numeric keys.
/// Meaningful only for a non-empty building list.
pub open spec fn public_school_model(p: PublicSchool, vocab: Seq<SchoolType>) -> SchoolModel {
    let bs = p.buildings@;
    SchoolModel {
        institution_key: p.institution_key@,
        name: p.name@,
        school_types: resolved_types(vocab, all_type_keys(bs)),
        opening_date: p.opening_date.deep_view(),
        street: bs[0].street@,
        street_name: bs[0].street_name@,
        house_number: bs[0].house_number@,
        postcode: bs[0].postcode@,
        community: bs[0].community@,
        longitude: reduced_longitude(bs),
        latitude: reduced_latitude(bs),
        phone_code: reduced_phone_code(bs),
        phone_number: reduced_phone_number(bs),
        phone_identifier: reduced_phone_identifier(bs),
        fax_code: reduced_fax_code(bs),
        fax_number: reduced_fax_number(bs),
        mail: reduced_mail(bs),
        homepage: reduced_homepage(bs),
    }
}

/// The canonical record that the independent adapter produces: all fields map
/// one to one from the single-building record, the type set is the one
/// vocabulary entry whose label equals the record's type name (empty when no
/// label matches), and fields absent from this feed's schema stay unset.
pub open spec fn independent_school_model(
    p: IndependetSchool,
    vocab: Seq<SchoolType>,
) -> SchoolModel {
    SchoolModel {
        institution_key: p.institution_key@,
        name: p.name@,
        school_types: match type_for_label(vocab, p.school_type_name@) {
            Some(t) => seq![t],
            None => Seq::empty(),
        },
        opening_date: p.opening_date.deep_view(),
        street: p.street@,
        street_name: p.street_name@,
        house_number: p.house_number@,
        postcode: p.postcode@,
        community: p.community@,
        longitude: None,
        latitude: None,
        phone_code: None,
        phone_number: None,
        phone_identifier: None,
        fax_code: None,
        fax_number: None,
        mail: None,
        homepage: p.homepage.deep_view(),
    }
}

fn clone_opt_string(o: &Option<String>) -> (r: Option<String>)
    ensures
        r == *o,
{
    match o {
        Some(s) => Some(s.clone()),
        None => None,
    }
}

impl PublicSchool {
    /// Convert one public-feed institution into the canonical record.
    ///
    /// The caller must guarantee at least one building: an empty building
    /// list is a contract violation, not a recoverable condition.
    pub fn into_school(self, possible_school_types: &Vec<SchoolType>) -> (s: School)
        requires
            self.buildings@.len() > 0,
        ensures
            s@ == public_school_model(self, possible_school_types@),
    {
        let ghost self0 = self;

        // Union of the numeric type keys across all buildings, in feed order.
        let mut keys: Vec<u32> = Vec::new();
        let mut i: usize = 0;
        proof {
            assert(self.buildings@.subrange(0, 0) =~= Seq::<Building>::empty());
        }
        while i < self.buildings.len()
            invariant
                i <= self.buildings@.len(),
                keys@ == all_type_keys(self.buildings@.subrange(0, i as int)),
            decreases self.buildings@.len() - i,
        {
            let n = self.buildings[i].school_type_keys.len();
            let mut j: usize = 0;
            proof {
                assert(self.buildings@[i as int].school_type_keys@.subrange(0, 0)
                    =~= Seq::<u32>::empty());
                assert(keys@ =~= all_type_keys(self.buildings@.subrange(0, i as int))
                    + self.buildings@[i as int].school_type_keys@.subrange(0, 0));
            }
            while j < n
                invariant
                    i < self.buildings@.len(),
                    n == self.buildings@[i as int].school_type_keys@.len(),
                    j <= n,
                    keys@ == all_type_keys(self.buildings@.subrange(0, i as int))
                        + self.buildings@[i as int].school_type_keys@.subrange(0, j as int),
                decreases n - j,
            {
                let ghost keys0 = keys@;
                keys.push(self.buildings[i].school_type_keys[j]);
                proof {
                    assert(self.buildings@[i as int].school_type_keys@.subrange(0, j as int + 1)
                        =~= self.buildings@[i as int].school_type_keys@.subrange(0, j as int).push(
                        self.buildings@[i as int].school_type_keys@[j as int],
                    ));
                    assert(keys@ =~= all_type_keys(self.buildings@.subrange(0, i as int))
                        + self.buildings@[i as int].school_type_keys@.subrange(0, j as int + 1));
                }
                j = j + 1;
            }
            proof {
                let bs = self.buildings@;
                assert(bs[i as int].school_type_keys@.subrange(0, n as int)
                    =~= bs[i as int].school_type_keys@);
                assert(bs.subrange(0, i as int + 1).drop_last() =~= bs.subrange(0, i as int));
                assert(bs.subrange(0, i as int + 1).last() == bs[i as int]);
                assert(keys@ == all_type_keys(bs.subrange(0, i as int + 1)));
            }
            i = i + 1;
        }
        proof {
            assert(self.buildings@.subrange(0, self.buildings@.len() as int)
                =~= self.buildings@);
        }
        let school_types = resolve_type_keys(possible_school_types, &keys);

        // Reduce the building list: the first building's address, every
        // optional field overwritten by each later building that carries it.
        let street = self.buildings[0].street.clone();
        let street_name = self.buildings[0].street_name.clone();
        let house_number = self.buildings[0].house_number.clone();
        let postcode = self.buildings[0].postcode.clone();
        let community = self.buildings[0].community.clone();
        let mut longitude = self.buildings[0].longitude;
        let mut latitude = self.buildings[0].latitude;
        let mut phone_code = clone_opt_string(&self.buildings[0].phone_code);
        let mut phone_number = clone_opt_string(&self.buildings[0].phone_number);
        let mut phone_identifier = clone_opt_string(&self.buildings[0].phone_identifier);
        let mut fax_code = clone_opt_string(&self.buildings[0].fax_code);
        let mut fax_number = clone_opt_string(&self.buildings[0].fax_number);
        let mut mail = clone_opt_string(&self.buildings[0].mail);
        let mut homepage = clone_opt_string(&self.buildings[0].homepage);
        proof {
            assert(self.buildings@.subrange(0, 1).last() == self.buildings@[0]);
            assert(self.buildings@.subrange(0, 1).drop_last() =~= Seq::<Building>::empty());
            let e = Seq::<Building>::empty();
            assert(reduced_longitude(e) == None::<u64>);
            assert(reduced_latitude(e) == None::<u64>);
            assert(reduced_phone_code(e) == None::<Seq<char>>);
            assert(reduced_phone_number(e) == None::<Seq<char>>);
            assert(reduced_phone_identifier(e) == None::<Seq<char>>);
            assert(reduced_fax_code(e) == None::<Seq<char>>);
            assert(reduced_fax_number(e) == None::<Seq<char>>);
            assert(reduced_mail(e) == None::<Seq<char>>);
            assert(reduced_homepage(e) == None::<Seq<char>>);
        }
        let mut k: usize = 1;
        while k < self.buildings.len()
            invariant
                1 <= k <= self.buildings@.len(),
                longitude == reduced_longitude(self.buildings@.subrange(0, k as int)),
                latitude == reduced_latitude(self.buildings@.subrange(0, k as int)),
                phone_code.deep_view() == reduced_phone_code(
                    self.buildings@.subrange(0, k as int),
                ),
                phone_number.deep_view() == reduced_phone_number(
                    self.buildings@.subrange(0, k as int),
                ),
                phone_identifier.deep_view() == reduced_phone_identifier(
                    self.buildings@.subrange(0, k as int),
                ),
                fax_code.deep_view() == reduced_fax_code(self.buildings@.subrange(0, k as int)),
                fax_number.deep_view() == reduced_fax_number(
                    self.buildings@.subrange(0, k as int),
                ),
                mail.deep_view() == reduced_mail(self.buildings@.subrange(0, k as int)),
                homepage.deep_view() == reduced_homepage(self.buildings@.subrange(0, k as int)),
            decreases self.buildings@.len() - k,
        {
            if self.buildings[k].longitude.is_some() {
                longitude = self.buildings[k].longitude;
            }
            if self.buildings[k].latitude.is_some() {
                latitude = self.buildings[k].latitude;
            }
            if self.buildings[k].phone_code.is_some() {
                phone_code = clone_opt_string(&self.buildings[k].phone_code);
            }
            if self.buildings[k].phone_number.is_some() {
                phone_number = clone_opt_string(&self.buildings[k].phone_number);
            }
            if self.buildings[k].phone_identifier.is_some() {
                phone_identifier = clone_opt_string(&self.buildings[k].phone_identifier);
            }
            if self.buildings[k].fax_code.is_some() {
                fax_code = clone_opt_string(&self.buildings[k].fax_code);
            }
            if self.buildings[k].fax_number.is_some() {
                fax_number = clone_opt_string(&self.buildings[k].fax_number);
            }
            if self.buildings[k].mail.is_some() {
                mail = clone_opt_string(&self.buildings[k].mail);
            }
            if self.buildings[k].homepage.is_some() {
                homepage = clone_opt_string(&self.buildings[k].homepage);
            }
            proof {
                assert(self.buildings@.subrange(0, k as int + 1).drop_last()
                    =~= self.buildings@.subrange(0, k as int));
                assert(self.buildings@.subrange(0, k as int + 1).last()
                    == self.buildings@[k as int]);
            }
            k = k + 1;
        }
        proof {
            assert(self.buildings@.subrange(0, self.buildings@.len() as int)
                =~= self.buildings@);
        }

        let s = School {
            institution_key: self.institution_key,
            name: self.name,
            school_types,
            opening_date: self.opening_date,
            street,
            street_name,
            house_number,
            postcode,
            community,
            longitude,
            latitude,
            phone_code,
            phone_number,
            phone_identifier,
            fax_code,
            fax_number,
            mail,
            homepage,
        };
        proof {
            assert(s@ =~= public_school_model(self0, possible_school_types@));
        }
        s
    }
}

impl IndependetSchool {
    /// Convert one independent-feed institution into the canonical record.
    pub fn into_school(self, possible_school_types: &Vec<SchoolType>) -> (s: School)
        ensures
            s@ == independent_school_model(self, possible_school_types@),
    {
        let ghost self0 = self;
        let mut school_types: Vec<SchoolType> = Vec::new();
        let found = find_type_by_label(possible_school_types, &self.school_type_name);
        match found {
            Some(t) => {
                let ghost t0 = t;
                school_types.push(t);
                proof {
                    assert(school_types.deep_view() =~= seq![t0@]);
                }
            },
            None => {
                proof {
                    assert(school_types.deep_view() =~= Seq::<crate::types::TypeModel>::empty());
                }
            },
        }
        let s = School {
            institution_key: self.institution_key,
            name: self.name,
            school_types,
            opening_date: self.opening_date,
            street: self.street,
            street_name: self.street_name,
            house_number: self.house_number,
            postcode: self.postcode,
            community: self.community,
            longitude: None,
            latitude: None,
            phone_code: None,
            phone_number: None,
            phone_identifier: None,
            fax_code: None,
            fax_number: None,
            mail: None,
            homepage: self.homepage,
        };
        proof {
            assert(s@ =~= independent_school_model(self0, possible_school_types@));
        }
        s
    }
}

} // verus!
