use uqgrd::semester::{
    decimal_string, format_semester_name, get_current_semester_code, semester_code_for, semester_code_of,
};

#[test]
fn winter_months_map_to_term_one() {
    assert_eq!(semester_code_for(2025, 1), 20251);
    assert_eq!(semester_code_for(2025, 4), 20251);
}

#[test]
fn summer_months_map_to_term_two() {
    assert_eq!(semester_code_for(2025, 5), 20252);
    assert_eq!(semester_code_for(2025, 8), 20252);
}

#[test]
fn fall_months_map_to_term_three() {
    assert_eq!(semester_code_for(2025, 9), 20253);
    assert_eq!(semester_code_for(2025, 12), 20253);
}

#[test]
fn every_month_keeps_year_and_valid_term() {
    for month in 1..=12u32 {
        let code = semester_code_for(2031, month);
        assert_eq!(code / 10, 2031);
        assert!((1..=3).contains(&(code % 10)));
    }
}

#[test]
fn current_semester_code_is_well_formed() {
    let code = get_current_semester_code().expect("today has a semester code");
    assert!((1..=3).contains(&(code % 10)));
    assert!(code / 10 >= 2020);
}

#[test]
fn semester_names_for_each_term() {
    assert_eq!(format_semester_name(20251), "Hiver 2025");
    assert_eq!(format_semester_name(20252), "Été 2025");
    assert_eq!(format_semester_name(20243), "Automne 2024");
}

#[test]
fn malformed_codes_are_returned_unchanged() {
    assert_eq!(format_semester_name(2025), "2025");
    assert_eq!(format_semester_name(202511), "202511");
    assert_eq!(format_semester_name(0), "0");
    assert_eq!(format_semester_name(20254), "20254");
    assert_eq!(format_semester_name(20250), "20250");
}

#[test]
fn five_digit_codes_give_non_empty_labels() {
    for code in [10000u32, 10001, 55552, 99993, 99999] {
        assert!(!format_semester_name(code).is_empty());
    }
}

#[test]
fn decimal_rendering() {
    assert_eq!(decimal_string(0), "0");
    assert_eq!(decimal_string(7), "7");
    assert_eq!(decimal_string(1234567890), "1234567890");
    assert_eq!(decimal_string(u64::MAX), u64::MAX.to_string());
}

#[test]
fn years_without_a_code() {
    assert_eq!(semester_code_of(-1, 6), None);
    assert_eq!(semester_code_of(429_496_729, 1), None);
    assert_eq!(semester_code_of(429_496_728, 12), Some(4_294_967_283));
    assert_eq!(semester_code_of(0, 2), Some(1));
    assert_eq!(semester_code_of(2026, 10), Some(20263));
}
