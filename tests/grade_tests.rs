use uqgrd::grades::{has_changed, same_note, totals_differ_exec, CourseState, DetailActivity};
use uqgrd::state::GradesState;

fn detail(total: Option<i64>, note: Option<&str>) -> DetailActivity {
    DetailActivity { total, note: note.map(|s| s.to_string()) }
}

fn record(total: Option<i64>, note: Option<&str>) -> CourseState {
    CourseState { total, note: note.map(|s| s.to_string()) }
}

#[test]
fn new_course_without_grade_is_not_a_change() {
    assert!(!has_changed(None, &detail(None, None)));
}

#[test]
fn new_course_with_total_is_a_change() {
    assert!(has_changed(None, &detail(Some(85_000), None)));
}

#[test]
fn new_course_with_letter_is_a_change() {
    assert!(has_changed(None, &detail(None, Some("A"))));
}

#[test]
fn total_within_tolerance_is_unchanged() {
    let prev = record(Some(70_000), None);
    assert!(!has_changed(Some(&prev), &detail(Some(70_009), None)));
}

#[test]
fn total_beyond_tolerance_is_changed() {
    let prev = record(Some(70_000), None);
    assert!(has_changed(Some(&prev), &detail(Some(70_020), None)));
}

#[test]
fn tolerance_boundary() {
    assert!(!totals_differ_exec(Some(70_000), Some(70_010)));
    assert!(totals_differ_exec(Some(70_000), Some(70_011)));
    assert!(totals_differ_exec(Some(70_011), Some(70_000)));
    assert!(totals_differ_exec(Some(i64::MIN), Some(i64::MAX)));
}

#[test]
fn total_appearing_or_vanishing_is_changed() {
    assert!(totals_differ_exec(None, Some(1)));
    assert!(totals_differ_exec(Some(1), None));
    assert!(!totals_differ_exec(None, None));
}

#[test]
fn letter_dropping_is_changed() {
    let prev = record(None, Some("B+"));
    assert!(has_changed(Some(&prev), &detail(None, None)));
}

#[test]
fn letter_comparison_is_exact() {
    assert!(same_note(&Some("B".to_string()), &Some("B".to_string())));
    assert!(!same_note(&Some("B".to_string()), &Some("B+".to_string())));
    assert!(!same_note(&None, &Some("B".to_string())));
    assert!(same_note(&None, &None));
}

#[test]
fn identical_grade_is_unchanged() {
    let prev = record(Some(75_000), Some("B"));
    assert!(!has_changed(Some(&prev), &detail(Some(75_000), Some("B"))));
}

#[test]
fn state_lookup_drives_change_test() {
    let mut state = GradesState::new();
    let sigle = "INF3173".to_string();
    assert!(state.has_grade_changed(&sigle, &detail(Some(75_000), Some("B"))));
    state.insert(sigle.clone(), record(Some(75_000), Some("B")));
    assert!(!state.has_grade_changed(&sigle, &detail(Some(75_000), Some("B"))));
    assert!(state.has_grade_changed(&sigle, &detail(Some(78_500), Some("B+"))));
}

#[test]
fn cold_start_state_is_empty() {
    let state = GradesState::new();
    assert_eq!(state.len(), 0);
    assert!(state.get(&"INF3173".to_string()).is_none());
    assert!(state.to_entries().is_empty());
}

#[test]
fn insert_replaces_earlier_record() {
    let mut state = GradesState::new();
    let sigle = "INF1120".to_string();
    state.insert(sigle.clone(), record(Some(60_000), None));
    state.insert(sigle.clone(), record(Some(65_000), Some("C")));
    assert_eq!(state.len(), 1);
    let got = state.get(&sigle).unwrap();
    assert_eq!(got.total, Some(65_000));
    assert_eq!(got.note.as_deref(), Some("C"));
}

#[test]
fn entries_round_trip() {
    let mut state = GradesState::new();
    state.insert("INF3173".to_string(), record(Some(75_000), Some("B")));
    state.insert("MAT1600".to_string(), record(None, Some("A-")));
    state.insert("INF2120".to_string(), record(Some(88_250), None));
    let saved = state.to_entries();
    let loaded = GradesState::from_entries(&saved);
    assert_eq!(loaded.len(), 3);
    for (k, v) in &saved {
        let a = state.get(k).unwrap();
        let b = loaded.get(k).unwrap();
        assert_eq!(a.total, b.total);
        assert_eq!(a.note, b.note);
        assert_eq!(v.total, b.total);
    }
}

#[test]
fn later_entry_wins_on_load() {
    let entries = vec![
        ("INF3173".to_string(), record(Some(10_000), None)),
        ("INF3173".to_string(), record(Some(20_000), None)),
    ];
    let loaded = GradesState::from_entries(&entries);
    assert_eq!(loaded.len(), 1);
    assert_eq!(loaded.get(&"INF3173".to_string()).unwrap().total, Some(20_000));
}
