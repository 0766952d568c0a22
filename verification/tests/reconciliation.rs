use school_directory::reconcile::schools_of_types_in_district;
use school_directory::types::{
    Building, Community, District, IndependetSchool, PublicSchool, SchoolType,
};

fn school_type(key: &str, label: &str) -> SchoolType {
    SchoolType { key: key.to_owned(), label: label.to_owned() }
}

fn building(street: &str, mail: Option<&str>, type_keys: Vec<u32>) -> Building {
    Building {
        building_name: None,
        street: street.to_owned(),
        street_name: street.to_owned(),
        house_number: "1".to_owned(),
        postcode: "01067".to_owned(),
        community: "Dresden".to_owned(),
        longitude: None,
        latitude: None,
        phone_code: None,
        phone_number: None,
        phone_identifier: None,
        fax_code: None,
        fax_number: None,
        school_type_keys: type_keys,
        mail: mail.map(|m| m.to_owned()),
        homepage: None,
    }
}

fn public_school(key: &str, name: &str, buildings: Vec<Building>) -> PublicSchool {
    PublicSchool {
        institution_key: key.to_owned(),
        name: name.to_owned(),
        id: 1,
        abbreviation: String::new(),
        institution_number: String::new(),
        legal_status_key: String::new(),
        inspectorate_key: String::new(),
        company_number: None,
        school_category_key: String::new(),
        headmaster_salutation_key: None,
        headmaster_firstname: None,
        headmaster_lastname: None,
        school_portal_mail: None,
        educational_concept_key: None,
        school_property_key: None,
        opening_date: None,
        buildings,
    }
}

fn independent_school(key: &str, name: &str, type_label: &str, community: &str) -> IndependetSchool {
    IndependetSchool {
        institution_key: key.to_owned(),
        name: name.to_owned(),
        school_category_name: String::new(),
        school_type_name: type_label.to_owned(),
        owner_id: 7,
        educational_sector: None,
        inspectorate: String::new(),
        opening_date: None,
        homepage: None,
        street: "Weg".to_owned(),
        street_name: "Weg".to_owned(),
        house_number: "2".to_owned(),
        postcode: "01069".to_owned(),
        community: community.to_owned(),
    }
}

fn district() -> District {
    District { key: "14612".to_owned(), name: "Dresden".to_owned() }
}

fn communities() -> Vec<Community> {
    vec![
        Community { key: "14612000".to_owned(), name: "Dresden".to_owned() },
        Community { key: "14729999".to_owned(), name: "Machern".to_owned() },
    ]
}

#[test]
fn dedup_precedence_public_feed_wins() {
    let vocab = vec![school_type("10", "Grundschule")];
    let requested = vec![school_type("10", "Grundschule")];
    let publics = vec![public_school("K1", "Public version", vec![building(
        "Hauptstr.",
        None,
        vec![10],
    )])];
    let indeps = vec![independent_school("K1", "Independent version", "Grundschule", "Dresden")];
    let result = schools_of_types_in_district(
        publics,
        indeps,
        &vocab,
        &requested,
        &district(),
        &communities(),
    );
    assert_eq!(result.len(), 1);
    assert_eq!(result[0].institution_key, "K1");
    assert_eq!(result[0].name, "Public version");
}

#[test]
fn independent_survivor_is_appended_after_public_records() {
    let vocab = vec![school_type("10", "Grundschule")];
    let requested = vec![school_type("10", "Grundschule")];
    let publics = vec![public_school("K1", "A public school", vec![building(
        "Hauptstr.",
        None,
        vec![10],
    )])];
    let indeps = vec![independent_school("K2", "An independent school", "Grundschule", "Dresden")];
    let result = schools_of_types_in_district(
        publics,
        indeps,
        &vocab,
        &requested,
        &district(),
        &communities(),
    );
    assert_eq!(result.len(), 2);
    assert_eq!(result[0].institution_key, "K1");
    assert_eq!(result[1].institution_key, "K2");
    assert_eq!(result[1].street, "Weg");
    assert_eq!(result[1].longitude, None);
}

#[test]
fn community_scoping_excludes_foreign_independent_school() {
    let vocab = vec![school_type("10", "Grundschule")];
    let requested = vec![school_type("10", "Grundschule")];
    // The type matches, but Machern's community key (14729999) does not carry
    // the chosen district's key (14612) as a prefix.
    let indeps = vec![independent_school("K9", "Far away", "Grundschule", "Machern")];
    let result = schools_of_types_in_district(
        Vec::new(),
        indeps,
        &vocab,
        &requested,
        &district(),
        &communities(),
    );
    assert_eq!(result.len(), 0);
}

#[test]
fn type_filter_keeps_on_overlap_and_drops_on_disjoint() {
    let vocab = vec![
        school_type("1", "A"),
        school_type("2", "B"),
        school_type("3", "C"),
        school_type("4", "D"),
    ];
    let publics =
        vec![public_school("K1", "AB school", vec![building("Hauptstr.", None, vec![1, 2])])];
    // Requested {B, C}: intersection {B} is non-empty, the record stays.
    let requested_bc = vec![school_type("2", "B"), school_type("3", "C")];
    let kept = schools_of_types_in_district(
        publics,
        Vec::new(),
        &vocab,
        &requested_bc,
        &district(),
        &communities(),
    );
    assert_eq!(kept.len(), 1);

    // Requested {C, D}: the intersection is empty, the record is dropped.
    let publics =
        vec![public_school("K1", "AB school", vec![building("Hauptstr.", None, vec![1, 2])])];
    let requested_cd = vec![school_type("3", "C"), school_type("4", "D")];
    let dropped = schools_of_types_in_district(
        publics,
        Vec::new(),
        &vocab,
        &requested_cd,
        &district(),
        &communities(),
    );
    assert_eq!(dropped.len(), 0);
}

#[test]
fn resolution_may_exceed_the_requested_set() {
    // A multi-building institution resolves types the caller did not request;
    // the record survives as long as one requested type is among them.
    let vocab = vec![school_type("1", "A"), school_type("2", "B")];
    let requested = vec![school_type("1", "A")];
    let publics = vec![public_school("K1", "Both types", vec![
        building("Hauptstr.", None, vec![1]),
        building("Nebenstr.", None, vec![2]),
    ])];
    let result = schools_of_types_in_district(
        publics,
        Vec::new(),
        &vocab,
        &requested,
        &district(),
        &communities(),
    );
    assert_eq!(result.len(), 1);
    let keys: Vec<&str> = result[0].school_types.iter().map(|t| t.key.as_str()).collect();
    assert_eq!(keys, vec!["1", "2"]);
}

#[test]
fn duplicate_independent_key_against_empty_public_feed_survives() {
    let vocab = vec![school_type("10", "Grundschule")];
    let requested = vec![school_type("10", "Grundschule")];
    let indeps = vec![independent_school("K5", "Independent", "Grundschule", "Dresden")];
    let result = schools_of_types_in_district(
        Vec::new(),
        indeps,
        &vocab,
        &requested,
        &district(),
        &communities(),
    );
    assert_eq!(result.len(), 1);
    assert_eq!(result[0].institution_key, "K5");
}
