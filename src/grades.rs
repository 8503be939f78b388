//! Grade snapshots, the change test between two of them, and the per-course
//! grade state that the daemon keeps between cycles.
//!
//! A numeric total is held in thousandths of a percentage point:
//! `Some(75_000)` is 75.000 %.

use vstd::prelude::*;

verus! {

/// Two totals that differ by more than this many thousandths of a point
/// (0.01 %) are different grades.
pub const TOLERANCE: i64 = 10;

/// What a grade looks like to the contracts: the total and the letter.
pub type GradeView = (Option<i64>, Option<Seq<char>>);

/// The letter of an optional grade symbol, as characters.
pub open spec fn note_view(n: Option<String>) -> Option<Seq<char>> {
    match n {
        Some(s) => Some(s@),
        None => None,
    }
}

/// A course's grade as the portal reports it now.
pub struct DetailActivity {
    /// Numeric total, in thousandths of a percentage point.
    pub total: Option<i64>,
    /// Letter grade.
    pub note: Option<String>,
}

/// The last grade recorded for a course.
pub struct CourseState {
    /// Numeric total, in thousandths of a percentage point.
    pub total: Option<i64>,
    /// Letter grade.
    pub note: Option<String>,
}

impl View for DetailActivity {
    type V = GradeView;

    open spec fn view(&self) -> GradeView {
        (self.total, note_view(self.note))
    }
}

impl View for CourseState {
    type V = GradeView;

    open spec fn view(&self) -> GradeView {
        (self.total, note_view(self.note))
    }
}

/// Whether two totals count as different: both present and further apart than
/// the tolerance, or one present and the other absent.
pub open spec fn totals_differ(a: Option<i64>, b: Option<i64>) -> bool {
    match (a, b) {
        (Some(x), Some(y)) => x - y > TOLERANCE || y - x > TOLERANCE,
        (None, None) => false,
        _ => true,
    }
}

/// The change rule. Without a previous record, a grade is new as soon as it
/// holds a total or a letter. With one, it has changed when the totals differ
/// or the letters are not the same.
pub open spec fn grade_changed(previous: Option<GradeView>, current: GradeView) -> bool {
    match previous {
        None => current.0.is_some() || current.1.is_some(),
        Some(p) => totals_differ(p.0, current.0) || p.1 != current.1,
    }
}

/// A grade compared with its own record is never a change: once a grade is
/// recorded, seeing it again asks for no alert.
pub proof fn lemma_recorded_grade_is_unchanged(d: GradeView)
    ensures
        !grade_changed(Some(d), d),
{
}

/// A copy of an optional letter.
fn copy_note(n: &Option<String>) -> (r: Option<String>)
    ensures
        note_view(r) == note_view(*n),
{
    match n {
        Some(s) => Some(s.clone()),
        None => None,
    }
}

impl DetailActivity {
    /// A copy of this grade.
    pub fn copy(&self) -> (r: DetailActivity)
        ensures
            r@ == self@,
    {
        DetailActivity { total: self.total, note: copy_note(&self.note) }
    }

    /// The record that the state keeps of this grade.
    pub fn to_course_state(&self) -> (r: CourseState)
        ensures
            r@ == self@,
    {
        CourseState { total: self.total, note: copy_note(&self.note) }
    }
}

impl CourseState {
    /// A copy of this record.
    pub fn copy(&self) -> (r: CourseState)
        ensures
            r@ == self@,
    {
        CourseState { total: self.total, note: copy_note(&self.note) }
    }
}

/// Whether two totals differ under the tolerance.
pub fn totals_differ_exec(a: Option<i64>, b: Option<i64>) -> (r: bool)
    ensures
        r == totals_differ(a, b),
{
    match (a, b) {
        (Some(x), Some(y)) => {
            let d: i128 = (x as i128) - (y as i128);
            d > TOLERANCE as i128 || d < -(TOLERANCE as i128)
        },
        (None, None) => false,
        _ => true,
    }
}

/// Whether two optional letters are the same.
pub fn same_note(a: &Option<String>, b: &Option<String>) -> (r: bool)
    ensures
        r == (note_view(*a) == note_view(*b)),
{
    match (a, b) {
        (Some(x), Some(y)) => x.eq(y),
        (None, None) => true,
        _ => false,
    }
}

/// The change test between the previous record of a course, if any, and its
/// current grade.
pub fn has_changed(previous: Option<&CourseState>, current: &DetailActivity) -> (r: bool)
    ensures
        r == grade_changed(
            match previous {
                Some(p) => Some(p@),
                None => None,
            },
            current@,
        ),
{
    match previous {
        None => current.total.is_some() || current.note.is_some(),
        Some(p) => totals_differ_exec(p.total, current.total) || !same_note(&p.note, &current.note),
    }
}

} // verus!
