//! The record vocabulary shared by both upstream school feeds, together with
//! the mathematical models that the contracts speak about.
//!
//! Geographic coordinates are carried as opaque 64-bit patterns: the
//! reconciliation logic only ever tests their presence and hands them through
//! unchanged, so nothing here depends on how a caller encodes them.

use vstd::prelude::*;

verus! {

/// An administrative district. A community belongs to a district when the
/// community's key starts with the district's key.
#[derive(Debug, PartialEq, Eq)]
pub struct District {
    pub key: String,
    pub name: String,
}

/// A community (municipality); its key carries its district's key as a prefix.
#[derive(Debug, PartialEq, Eq)]
pub struct Community {
    pub key: String,
    pub name: String,
}

/// One entry of the shared school-type vocabulary. The public feed references
/// these entries by numeric key, the independent feed by label.
#[derive(Debug, PartialEq, Eq)]
pub struct SchoolType {
    pub key: String,
    pub label: String,
}

impl Clone for SchoolType {
    fn clone(&self) -> (r: Self)
        ensures
            r == *self,
    {
        SchoolType { key: self.key.clone(), label: self.label.clone() }
    }
}

/// Model of a vocabulary entry: both strings as character sequences.
#[verifier::ext_equal]
pub struct TypeModel {
    pub key: Seq<char>,
    pub label: Seq<char>,
}

impl View for SchoolType {
    type V = TypeModel;

    open spec fn view(&self) -> TypeModel {
        TypeModel { key: self.key@, label: self.label@ }
    }
}

impl DeepView for SchoolType {
    type V = TypeModel;

    open spec fn deep_view(&self) -> TypeModel {
        self@
    }
}

/// One physical location of a public-feed institution, in feed order within
/// its institution's building list.
#[derive(Debug, PartialEq)]
pub struct Building {
    pub building_name: Option<String>,
    pub street: String,
    pub street_name: String,
    pub house_number: String,
    pub postcode: String,
    pub community: String,
    pub longitude: Option<u64>,
    pub latitude: Option<u64>,
    pub phone_code: Option<String>,
    pub phone_number: Option<String>,
    pub phone_identifier: Option<String>,
    pub fax_code: Option<String>,
    pub fax_number: Option<String>,
    pub school_type_keys: Vec<u32>,
    pub mail: Option<String>,
    pub homepage: Option<String>,
}

/// A raw institution record of the public-schools feed. Its building list is
/// non-empty for every well-formed record; the adapters require that.
#[derive(Debug, PartialEq)]
pub struct PublicSchool {
    pub institution_key: String,
    pub name: String,
    pub id: u32,
    pub abbreviation: String,
    pub institution_number: String,
    pub legal_status_key: String,
    pub inspectorate_key: String,
    pub company_number: Option<String>,
    pub school_category_key: String,
    pub headmaster_salutation_key: Option<char>,
    pub headmaster_firstname: Option<String>,
    pub headmaster_lastname: Option<String>,
    pub school_portal_mail: Option<String>,
    pub educational_concept_key: Option<u32>,
    pub school_property_key: Option<String>,
    pub opening_date: Option<String>,
    pub buildings: Vec<Building>,
}

/// A raw institution record of the independent-schools feed: one building's
/// worth of data, with the school type given as a label, not a key.
#[derive(Debug, PartialEq)]
pub struct IndependetSchool {
    pub institution_key: String,
    pub name: String,
    pub school_category_name: String,
    pub school_type_name: String,
    pub owner_id: u32,
    pub educational_sector: Option<String>,
    pub inspectorate: String,
    pub opening_date: Option<String>,
    pub homepage: Option<String>,
    pub street: String,
    pub street_name: String,
    pub house_number: String,
    pub postcode: String,
    pub community: String,
}

/// The canonical, merged record: one per institution in the final result.
#[derive(Debug, PartialEq)]
pub struct School {
    pub institution_key: String,
    pub name: String,
    pub school_types: Vec<SchoolType>,
    pub opening_date: Option<String>,
    pub street: String,
    pub street_name: String,
    pub house_number: String,
    pub postcode: String,
    pub community: String,
    pub longitude: Option<u64>,
    pub latitude: Option<u64>,
    pub phone_code: Option<String>,
    pub phone_number: Option<String>,
    pub phone_identifier: Option<String>,
    pub fax_code: Option<String>,
    pub fax_number: Option<String>,
    pub mail: Option<String>,
    pub homepage: Option<String>,
}

/// Model of a canonical record: every string as a character sequence, the
/// type list as a sequence of vocabulary-entry models.
#[verifier::ext_equal]
pub struct SchoolModel {
    pub institution_key: Seq<char>,
    pub name: Seq<char>,
    pub school_types: Seq<TypeModel>,
    pub opening_date: Option<Seq<char>>,
    pub street: Seq<char>,
    pub street_name: Seq<char>,
    pub house_number: Seq<char>,
    pub postcode: Seq<char>,
    pub community: Seq<char>,
    pub longitude: Option<u64>,
    pub latitude: Option<u64>,
    pub phone_code: Option<Seq<char>>,
    pub phone_number: Option<Seq<char>>,
    pub phone_identifier: Option<Seq<char>>,
    pub fax_code: Option<Seq<char>>,
    pub fax_number: Option<Seq<char>>,
    pub mail: Option<Seq<char>>,
    pub homepage: Option<Seq<char>>,
}

impl View for School {
    type V = SchoolModel;

    open spec fn view(&self) -> SchoolModel {
        SchoolModel {
            institution_key: self.institution_key@,
            name: self.name@,
            school_types: self.school_types.deep_view(),
            opening_date: self.opening_date.deep_view(),
            street: self.street@,
            street_name: self.street_name@,
            house_number: self.house_number@,
            postcode: self.postcode@,
            community: self.community@,
            longitude: self.longitude,
            latitude: self.latitude,
            phone_code: self.phone_code.deep_view(),
            phone_number: self.phone_number.deep_view(),
            phone_identifier: self.phone_identifier.deep_view(),
            fax_code: self.fax_code.deep_view(),
            fax_number: self.fax_number.deep_view(),
            mail: self.mail.deep_view(),
            homepage: self.homepage.deep_view(),
        }
    }
}

impl DeepView for School {
    type V = SchoolModel;

    open spec fn deep_view(&self) -> SchoolModel {
        self@
    }
}

} // verus!
