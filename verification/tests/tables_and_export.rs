use school_directory::decimal::{decimal_digits, str_equals_decimal};
use school_directory::export::school_type_keys_string;
use school_directory::tables::{filter_communities, filter_districts};
use school_directory::types::{Community, District, SchoolType};

fn school_type(key: &str, label: &str) -> SchoolType {
    SchoolType { key: key.to_owned(), label: label.to_owned() }
}

#[test]
fn district_filter_drops_sentinel_and_malformed_keys() {
    let districts = vec![
        District { key: "00000".to_owned(), name: "Sentinel".to_owned() },
        District { key: "14612".to_owned(), name: "Dresden".to_owned() },
        District { key: "146".to_owned(), name: "Too short".to_owned() },
        District { key: "1461200".to_owned(), name: "Too long".to_owned() },
        District { key: "14729".to_owned(), name: "Leipzig Land".to_owned() },
    ];
    let kept = filter_districts(districts);
    let names: Vec<&str> = kept.iter().map(|d| d.name.as_str()).collect();
    assert_eq!(names, vec!["Dresden", "Leipzig Land"]);
}

#[test]
fn community_filter_drops_only_the_sentinel() {
    let communities = vec![
        Community { key: "00000000".to_owned(), name: "Sentinel".to_owned() },
        Community { key: "14612000".to_owned(), name: "Dresden".to_owned() },
    ];
    let kept = filter_communities(communities);
    assert_eq!(kept.len(), 1);
    assert_eq!(kept[0].name, "Dresden");
}

#[test]
fn joined_keys_of_empty_list_is_empty() {
    let r = school_type_keys_string(&Vec::new());
    assert_eq!(r, "");
}

#[test]
fn joined_keys_of_one_entry_has_no_separator() {
    let r = school_type_keys_string(&vec![school_type("10", "Grundschule")]);
    assert_eq!(r, "10");
}

#[test]
fn joined_keys_are_separated_by_comma_and_space() {
    let r = school_type_keys_string(&vec![
        school_type("10", "Grundschule"),
        school_type("20", "Oberschule"),
        school_type("30", "Gymnasium"),
    ]);
    assert_eq!(r, "10, 20, 30");
}

#[test]
fn decimal_digits_render_zero_and_multi_digit_numbers() {
    assert_eq!(decimal_digits(0), vec!['0']);
    assert_eq!(decimal_digits(7), vec!['7']);
    assert_eq!(decimal_digits(10), vec!['1', '0']);
    assert_eq!(decimal_digits(4711), vec!['4', '7', '1', '1']);
    assert_eq!(decimal_digits(u32::MAX), "4294967295".chars().collect::<Vec<char>>());
}

#[test]
fn decimal_comparison_requires_the_exact_digit_string() {
    assert!(str_equals_decimal("0", 0));
    assert!(str_equals_decimal("10", 10));
    assert!(str_equals_decimal("4711", 4711));
    assert!(!str_equals_decimal("007", 7));
    assert!(!str_equals_decimal("1 ", 1));
    assert!(!str_equals_decimal("", 0));
    assert!(!str_equals_decimal("zehn", 10));
}
