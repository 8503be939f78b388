use uqgrd::grades::DetailActivity;
use uqgrd::portal::{
    check_token, current_or_latest, extract_detail, find_semester, sort_transcript, CourseDetailData,
    CourseDetailResponse, DetailError, DetailProgramme, DetailResult, PortalError, Programme, SemesterResult,
};

fn sem(code: u32, n_programs: usize) -> SemesterResult {
    let programmes = (0..n_programs)
        .map(|i| Programme {
            code_prog: format!("{}", i),
            titre_programme: format!("Programme {}", i),
            activites: vec![],
        })
        .collect();
    SemesterResult { trimestre: code, programmes }
}

fn response(levels: Vec<Vec<Vec<DetailActivity>>>) -> CourseDetailResponse {
    CourseDetailResponse {
        data: CourseDetailData {
            resultats: levels
                .into_iter()
                .map(|progs| DetailResult {
                    programmes: progs.into_iter().map(|acts| DetailProgramme { activites: acts }).collect(),
                })
                .collect(),
        },
    }
}

#[test]
fn empty_token_is_rejected() {
    assert!(check_token(String::new()) == Err(PortalError::EmptyToken));
    assert_eq!(check_token("abc123".to_string()).ok(), Some("abc123".to_string()));
}

#[test]
fn transcript_sorted_newest_first() {
    let sorted = sort_transcript(vec![sem(20243, 1), sem(20251, 1), sem(20232, 2), sem(20252, 0)]);
    let codes: Vec<u32> = sorted.iter().map(|s| s.trimestre).collect();
    assert_eq!(codes, vec![20252, 20251, 20243, 20232]);
    assert!(sort_transcript(vec![]).is_empty());
}

#[test]
fn detail_lookup_takes_first_of_each_level() {
    let first = DetailActivity { total: Some(75_000), note: Some("B".to_string()) };
    let other = DetailActivity { total: Some(1_000), note: None };
    let got = extract_detail(&response(vec![vec![vec![first, other]]])).ok().unwrap();
    assert_eq!(got.total, Some(75_000));
    assert_eq!(got.note.as_deref(), Some("B"));
}

#[test]
fn detail_lookup_failures_are_typed() {
    assert!(extract_detail(&response(vec![])).err() == Some(DetailError::NoResult));
    assert!(extract_detail(&response(vec![vec![]])).err() == Some(DetailError::NoProgramme));
    assert!(extract_detail(&response(vec![vec![vec![]]])).err() == Some(DetailError::NoActivity));
}

#[test]
fn find_semester_is_exact() {
    let t = vec![sem(20252, 1), sem(20251, 1), sem(20251, 2)];
    assert_eq!(find_semester(&t, 20251), Some(1));
    assert_eq!(find_semester(&t, 20253), None);
}

#[test]
fn one_shot_display_falls_back_to_latest() {
    let t = vec![sem(20252, 1), sem(20251, 2)];
    assert_eq!(current_or_latest(&t, 20251), Some((1, 0)));
    assert_eq!(current_or_latest(&t, 20263), Some((0, 0)));
    let empty_match = vec![sem(20252, 1), sem(20251, 0)];
    assert_eq!(current_or_latest(&empty_match, 20251), None);
    assert_eq!(current_or_latest(&vec![], 20251), None);
}

#[test]
fn equal_codes_keep_their_order() {
    let sorted = sort_transcript(vec![sem(20243, 1), sem(20251, 2), sem(20243, 3), sem(20251, 4), sem(20252, 5)]);
    let shape: Vec<(u32, usize)> = sorted.iter().map(|s| (s.trimestre, s.programmes.len())).collect();
    assert_eq!(shape, vec![(20252, 5), (20251, 2), (20251, 4), (20243, 1), (20243, 3)]);
}
