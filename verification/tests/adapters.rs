use school_directory::types::{Building, IndependetSchool, PublicSchool, SchoolType};

fn school_type(key: &str, label: &str) -> SchoolType {
    SchoolType { key: key.to_owned(), label: label.to_owned() }
}

fn empty_building() -> Building {
    Building {
        building_name: None,
        street: String::new(),
        street_name: String::new(),
        house_number: String::new(),
        postcode: String::new(),
        community: String::new(),
        longitude: None,
        latitude: None,
        phone_code: None,
        phone_number: None,
        phone_identifier: None,
        fax_code: None,
        fax_number: None,
        school_type_keys: Vec::new(),
        mail: None,
        homepage: None,
    }
}

fn public_school(buildings: Vec<Building>) -> PublicSchool {
    PublicSchool {
        institution_key: "K1".to_owned(),
        name: "Schule".to_owned(),
        id: 1,
        abbreviation: String::new(),
        institution_number: String::new(),
        legal_status_key: String::new(),
        inspectorate_key: String::new(),
        company_number: None,
        school_category_key: String::new(),
        headmaster_salutation_key: None,
        headmaster_firstname: None,
        headmaster_lastname: None,
        school_portal_mail: None,
        educational_concept_key: None,
        school_property_key: None,
        opening_date: Some("1990-08-01".to_owned()),
        buildings,
    }
}

fn independent_school(type_label: &str) -> IndependetSchool {
    IndependetSchool {
        institution_key: "K7".to_owned(),
        name: "Freie Schule".to_owned(),
        school_category_name: "Allgemeinbildende Schule".to_owned(),
        school_type_name: type_label.to_owned(),
        owner_id: 3,
        educational_sector: None,
        inspectorate: "Dresden".to_owned(),
        opening_date: None,
        homepage: Some("https://example.org".to_owned()),
        street: "Weg 2".to_owned(),
        street_name: "Weg".to_owned(),
        house_number: "2".to_owned(),
        postcode: "01069".to_owned(),
        community: "Dresden".to_owned(),
    }
}

#[test]
fn single_building_reduction_keeps_every_field() {
    let vocab = vec![school_type("10", "Grundschule")];
    let mut b = empty_building();
    b.street = "Hauptstr. 5".to_owned();
    b.street_name = "Hauptstr.".to_owned();
    b.house_number = "5".to_owned();
    b.postcode = "01067".to_owned();
    b.community = "Dresden".to_owned();
    b.longitude = Some(42);
    b.latitude = Some(7);
    b.phone_code = Some("0351".to_owned());
    b.phone_number = Some("123456".to_owned());
    b.mail = Some("gs@example.org".to_owned());
    b.school_type_keys = vec![10];
    let s = public_school(vec![b]).into_school(&vocab);
    assert_eq!(s.institution_key, "K1");
    assert_eq!(s.name, "Schule");
    assert_eq!(s.opening_date.as_deref(), Some("1990-08-01"));
    assert_eq!(s.street, "Hauptstr. 5");
    assert_eq!(s.street_name, "Hauptstr.");
    assert_eq!(s.house_number, "5");
    assert_eq!(s.postcode, "01067");
    assert_eq!(s.community, "Dresden");
    assert_eq!(s.longitude, Some(42));
    assert_eq!(s.latitude, Some(7));
    assert_eq!(s.phone_code.as_deref(), Some("0351"));
    assert_eq!(s.phone_number.as_deref(), Some("123456"));
    assert_eq!(s.phone_identifier, None);
    assert_eq!(s.fax_code, None);
    assert_eq!(s.fax_number, None);
    assert_eq!(s.mail.as_deref(), Some("gs@example.org"));
    assert_eq!(s.homepage, None);
    assert_eq!(s.school_types.len(), 1);
    assert_eq!(s.school_types[0].key, "10");
}

#[test]
fn later_building_with_value_overrides_mail() {
    let vocab: Vec<SchoolType> = Vec::new();
    let mut b1 = empty_building();
    b1.mail = Some("a@x".to_owned());
    let b2 = empty_building();
    let mut b3 = empty_building();
    b3.mail = Some("b@x".to_owned());
    let s = public_school(vec![b1, b2, b3]).into_school(&vocab);
    assert_eq!(s.mail.as_deref(), Some("b@x"));
}

#[test]
fn later_building_without_value_keeps_mail() {
    let vocab: Vec<SchoolType> = Vec::new();
    let mut b1 = empty_building();
    b1.mail = Some("a@x".to_owned());
    let b2 = empty_building();
    let s = public_school(vec![b1, b2]).into_school(&vocab);
    assert_eq!(s.mail.as_deref(), Some("a@x"));
}

#[test]
fn address_comes_only_from_the_first_building() {
    let vocab: Vec<SchoolType> = Vec::new();
    let mut b1 = empty_building();
    b1.street = "Main".to_owned();
    let mut b2 = empty_building();
    b2.street = "Side".to_owned();
    b2.longitude = Some(99);
    let s = public_school(vec![b1, b2]).into_school(&vocab);
    assert_eq!(s.street, "Main");
    assert_eq!(s.longitude, Some(99));
}

#[test]
fn type_union_across_buildings() {
    let vocab = vec![school_type("1", "A"), school_type("2", "B"), school_type("3", "C")];
    let mut b1 = empty_building();
    b1.school_type_keys = vec![1, 2];
    let mut b2 = empty_building();
    b2.school_type_keys = vec![2, 3];
    let s = public_school(vec![b1, b2]).into_school(&vocab);
    let keys: Vec<&str> = s.school_types.iter().map(|t| t.key.as_str()).collect();
    assert_eq!(keys, vec!["1", "2", "3"]);
}

#[test]
fn unknown_numeric_key_is_silently_dropped() {
    let vocab = vec![school_type("1", "A")];
    let mut b = empty_building();
    b.school_type_keys = vec![1, 99];
    let s = public_school(vec![b]).into_school(&vocab);
    assert_eq!(s.school_types.len(), 1);
    assert_eq!(s.school_types[0].key, "1");
}

#[test]
fn independent_adapter_resolves_by_label() {
    let vocab = vec![school_type("10", "Grundschule"), school_type("20", "Oberschule")];
    let s = independent_school("Oberschule").into_school(&vocab);
    assert_eq!(s.institution_key, "K7");
    assert_eq!(s.school_types.len(), 1);
    assert_eq!(s.school_types[0].key, "20");
    assert_eq!(s.street, "Weg 2");
    assert_eq!(s.community, "Dresden");
    assert_eq!(s.homepage.as_deref(), Some("https://example.org"));
    // Fields the independent schema does not carry stay unset.
    assert_eq!(s.longitude, None);
    assert_eq!(s.latitude, None);
    assert_eq!(s.phone_code, None);
    assert_eq!(s.phone_number, None);
    assert_eq!(s.phone_identifier, None);
    assert_eq!(s.fax_code, None);
    assert_eq!(s.fax_number, None);
    assert_eq!(s.mail, None);
}

#[test]
fn independent_adapter_tolerates_unknown_label() {
    let vocab = vec![school_type("10", "Grundschule")];
    let s = independent_school("Does not exist").into_school(&vocab);
    assert_eq!(s.school_types.len(), 0);
}

#[test]
fn repeated_keys_resolve_to_one_entry() {
    let vocab = vec![school_type("2", "B")];
    let mut b = empty_building();
    b.school_type_keys = vec![2, 2];
    let s = public_school(vec![b]).into_school(&vocab);
    assert_eq!(s.school_types.len(), 1);
}
