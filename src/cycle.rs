//! The decisions of one check cycle of the daemon.
//!
//! A cycle starts from the grade state and the transcript, walks every course
//! of the current semester in transcript order, and is told the outcome of
//! each course-detail request. For each outcome it decides whether the grade
//! has changed, and if so records it and asks for an alert. The requests, the
//! alerts and the storage are carried out by the caller.

use crate::grades::{grade_changed, DetailActivity, GradeView};
use crate::portal::{find_semester, Activity, Programme, SemesterResult};
use crate::state::GradesState;
use vstd::prelude::*;

verus! {

/// A course to check: sigle, title and group.
pub type CourseView = (Seq<char>, Seq<char>, u32);

/// A course of the current semester that the cycle checks.
pub struct TrackedCourse {
    pub sigle: String,
    pub titre: String,
    pub groupe: u32,
}

impl View for TrackedCourse {
    type V = CourseView;

    open spec fn view(&self) -> CourseView {
        (self.sigle@, self.titre@, self.groupe)
    }
}

/// A course-detail request to make.
pub struct DetailRequest {
    pub semester: u32,
    pub sigle: String,
    pub groupe: u32,
}

/// An alert to send: the course and its new grade.
pub struct GradeAlert {
    pub sigle: String,
    pub titre: String,
    pub detail: DetailActivity,
}

/// The courses of a program enrollment, in order.
pub open spec fn programme_courses(p: Programme) -> Seq<CourseView> {
    p.activites@.map_values(|a: Activity| (a.sigle@, a.titre@, a.groupe))
}

/// The courses of a semester: those of each program, program after program.
pub open spec fn semester_courses(ps: Seq<Programme>) -> Seq<CourseView>
    decreases ps.len(),
{
    if ps.len() == 0 {
        Seq::empty()
    } else {
        semester_courses(ps.drop_last()) + programme_courses(ps.last())
    }
}

/// The courses that a cycle checks: those of the first transcript entry whose
/// code is the current one, and none when there is no such entry.
pub open spec fn cycle_courses(transcript: Seq<SemesterResult>, code: u32) -> Seq<CourseView> {
    if exists|i: int| 0 <= i < transcript.len() && transcript[i].trimestre == code {
        let i = choose|i: int|
            0 <= i < transcript.len() && transcript[i].trimestre == code && forall|j: int|
                0 <= j < i ==> transcript[j].trimestre != code;
        semester_courses(transcript[i].programmes@)
    } else {
        Seq::empty()
    }
}

/// The state of one check cycle.
pub struct CheckCycle {
    grades: GradesState,
    dirty: bool,
    semester: u32,
    active: bool,
    courses: Vec<TrackedCourse>,
    next: usize,
}

/// The previous record of a course in a grade mapping, if any.
pub open spec fn previous_of(m: Map<Seq<char>, GradeView>, sigle: Seq<char>) -> Option<GradeView> {
    if m.contains_key(sigle) {
        Some(m[sigle])
    } else {
        None
    }
}

impl CheckCycle {
    /// The cycle's grade mapping.
    pub closed spec fn grades(&self) -> Map<Seq<char>, GradeView> {
        self.grades@
    }

    /// Whether some record has changed during the cycle.
    pub closed spec fn dirty(&self) -> bool {
        self.dirty
    }

    /// The courses that the cycle checks, in order.
    pub closed spec fn courses(&self) -> Seq<CourseView> {
        self.courses@.map_values(|c: TrackedCourse| c@)
    }

    /// How many courses have been checked so far.
    pub closed spec fn position(&self) -> int {
        self.next as int
    }

    /// The semester code that the cycle tracks.
    pub closed spec fn semester(&self) -> u32 {
        self.semester
    }

    /// Whether the transcript holds the current semester.
    pub closed spec fn active(&self) -> bool {
        self.active
    }

    /// The cycle's internal consistency.
    pub closed spec fn wf(&self) -> bool {
        self.grades.wf() && self.next <= self.courses@.len()
    }

    /// Starts a cycle from the recorded grades, the transcript and today's
    /// semester code. Only the entry whose code is the current one is
    /// tracked: there is no fallback to another semester.
    pub fn begin(state: GradesState, transcript: &Vec<SemesterResult>, current_code: u32) -> (r:
        CheckCycle)
        requires
            state.wf(),
        ensures
            r.wf(),
            r.grades() == state@,
            !r.dirty(),
            r.position() == 0,
            r.semester() == current_code,
            r.active() == exists|i: int|
                0 <= i < transcript@.len() && transcript@[i].trimestre == current_code,
            r.courses() == cycle_courses(transcript@, current_code),
    {
        match find_semester(transcript, current_code) {
            Some(i) => {
                let courses = collect_courses(&transcript[i].programmes);
                proof {
                    let t = transcript@;
                    let k = choose|k: int|
                        0 <= k < t.len() && t[k].trimestre == current_code && forall|j: int|
                            0 <= j < k ==> t[j].trimestre != current_code;
                    if k < i {
                    } else if k > i {
                        assert(t[i as int].trimestre == current_code);
                    }
                    assert(k == i);
                }
                CheckCycle {
                    grades: state,
                    dirty: false,
                    semester: current_code,
                    active: true,
                    courses,
                    next: 0,
                }
            },
            None => {
                let courses: Vec<TrackedCourse> = Vec::new();
                proof {
                    assert(courses@.map_values(|c: TrackedCourse| c@) =~= Seq::<CourseView>::empty());
                }
                CheckCycle {
                    grades: state,
                    dirty: false,
                    semester: current_code,
                    active: false,
                    courses,
                    next: 0,
                }
            },
        }
    }

    /// Whether the transcript held the current semester.
    pub fn has_active_semester(&self) -> (r: bool)
        ensures
            r == self.active(),
    {
        self.active
    }

    /// The next course-detail request, or `None` once every course has been
    /// checked.
    pub fn next_request(&self) -> (r: Option<DetailRequest>)
        requires
            self.wf(),
        ensures
            self.position() < self.courses().len() <==> r.is_some(),
            r matches Some(q) ==> q.semester == self.semester() && q.sigle@ == self.courses()[
                self.position()
            ].0 && q.groupe == self.courses()[self.position()].2,
    {
        if self.next < self.courses.len() {
            let c = &self.courses[self.next];
            Some(DetailRequest { semester: self.semester, sigle: c.sigle.clone(), groupe: c.groupe })
        } else {
            None
        }
    }

    /// Takes the outcome of the pending course-detail request. A failed
    /// request skips that course only. A grade that has changed is recorded
    /// and comes back as an alert to send; the record is kept whether or not
    /// the alert goes out.
    pub fn on_detail(&mut self, outcome: Result<DetailActivity, String>) -> (r: Option<GradeAlert>)
        requires
            old(self).wf(),
        ensures
            detail_step(
                *old(self),
                match outcome {
                    Ok(d) => Some(d@),
                    Err(_) => None,
                },
                *final(self),
                match r {
                    Some(a) => Some((a.sigle@, a.titre@, a.detail@)),
                    None => None,
                },
            ),
    {
        if self.next >= self.courses.len() {
            return None;
        }
        let i = self.next;
        self.next = i + 1;
        match outcome {
            Err(_) => None,
            Ok(detail) => {
                let course = &self.courses[i];
                let changed = self.grades.has_grade_changed(&course.sigle, &detail);
                if changed {
                    let alert = GradeAlert {
                        sigle: course.sigle.clone(),
                        titre: course.titre.clone(),
                        detail: detail.copy(),
                    };
                    self.grades.insert(course.sigle.clone(), detail.to_course_state());
                    self.dirty = true;
                    Some(alert)
                } else {
                    None
                }
            },
        }
    }

    /// Ends the cycle: the grade state, and whether it must be stored.
    pub fn finish(self) -> (r: (GradesState, bool))
        requires
            self.wf(),
        ensures
            r.0.wf(),
            r.0@ == self.grades(),
            r.1 == self.dirty(),
    {
        (self.grades, self.dirty)
    }
}

/// One step of a cycle on the outcome of a detail request (`None` for a
/// failed request): `post` and `alert` are what the step gives from `pre`.
/// Once every course is checked, nothing changes. Otherwise the cycle moves to
/// the next course; on a failure nothing else changes; on a grade, a change by
/// the change rule is recorded, marks the cycle dirty and asks for an alert.
pub open spec fn detail_step(
    pre: CheckCycle,
    outcome: Option<GradeView>,
    post: CheckCycle,
    alert: Option<(Seq<char>, Seq<char>, GradeView)>,
) -> bool {
    &&& post.wf()
    &&& post.courses() == pre.courses()
    &&& post.semester() == pre.semester()
    &&& post.active() == pre.active()
    &&& if pre.position() >= pre.courses().len() {
        post.position() == pre.position() && post.grades() == pre.grades() && post.dirty()
            == pre.dirty() && alert is None
    } else {
        let c = pre.courses()[pre.position()];
        &&& post.position() == pre.position() + 1
        &&& match outcome {
            None => post.grades() == pre.grades() && post.dirty() == pre.dirty() && alert is None,
            Some(d) => if grade_changed(previous_of(pre.grades(), c.0), d) {
                post.grades() == pre.grades().insert(c.0, d) && post.dirty() && alert == Some(
                    (c.0, c.1, d),
                )
            } else {
                post.grades() == pre.grades() && post.dirty() == pre.dirty() && alert is None
            },
        }
    }
}

/// The courses of a semester's program enrollments, in order.
fn collect_courses(programmes: &Vec<Programme>) -> (r: Vec<TrackedCourse>)
    ensures
        r@.map_values(|c: TrackedCourse| c@) == semester_courses(programmes@),
{
    let mut r: Vec<TrackedCourse> = Vec::new();
    let mut i: usize = 0;
    while i < programmes.len()
        invariant
            i <= programmes@.len(),
            r@.map_values(|c: TrackedCourse| c@) == semester_courses(
                programmes@.subrange(0, i as int),
            ),
        decreases programmes@.len() - i,
    {
        let p = &programmes[i];
        let ghost base = r@.map_values(|c: TrackedCourse| c@);
        let mut j: usize = 0;
        while j < p.activites.len()
            invariant
                i < programmes@.len(),
                p == programmes@[i as int],
                j <= p.activites@.len(),
                r@.map_values(|c: TrackedCourse| c@) == base + programme_courses(*p).subrange(
                    0,
                    j as int,
                ),
            decreases p.activites@.len() - j,
        {
            let a = &p.activites[j];
            let ghost prev = r@;
            r.push(TrackedCourse { sigle: a.sigle.clone(), titre: a.titre.clone(), groupe: a.groupe });
            proof {
                assert(r@.map_values(|c: TrackedCourse| c@) =~= prev.map_values(
                    |c: TrackedCourse| c@,
                ).push(r@.last()@));
                assert(programme_courses(*p).subrange(0, j + 1) =~= programme_courses(
                    *p,
                ).subrange(0, j as int).push(programme_courses(*p)[j as int]));
            }
            j = j + 1;
        }
        proof {
            assert(programme_courses(*p).subrange(0, j as int) =~= programme_courses(*p));
            assert(programmes@.subrange(0, i + 1).drop_last() =~= programmes@.subrange(
                0,
                i as int,
            ));
        }
        i = i + 1;
    }
    proof {
        assert(programmes@.subrange(0, programmes@.len() as int) =~= programmes@);
    }
    r
}

/// A failed detail request for one course does not keep the cycle from
/// checking the following course: the failure leaves the grades alone and asks
/// for no alert, and a changed grade for the next course is then recorded and
/// alerted.
pub proof fn lemma_failure_does_not_block_next(
    c0: CheckCycle,
    c1: CheckCycle,
    c2: CheckCycle,
    d: GradeView,
    a1: Option<(Seq<char>, Seq<char>, GradeView)>,
    a2: Option<(Seq<char>, Seq<char>, GradeView)>,
)
    requires
        c0.wf(),
        c0.position() + 1 < c0.courses().len(),
        detail_step(c0, None, c1, a1),
        detail_step(c1, Some(d), c2, a2),
        grade_changed(previous_of(c0.grades(), c0.courses()[c0.position() + 1].0), d),
    ensures
        a1 is None,
        c1.grades() == c0.grades(),
        c2.position() == c0.position() + 2,
        a2 == Some(
            (c0.courses()[c0.position() + 1].0, c0.courses()[c0.position() + 1].1, d),
        ),
        c2.grades() == c0.grades().insert(c0.courses()[c0.position() + 1].0, d),
        c2.dirty(),
{
}

/// What an alert is to the contracts: sigle, title and grade.
pub type AlertView = (Seq<char>, Seq<char>, GradeView);

/// `cs` is a run of cycle states where each is the step of the one before on
/// the outcome of the same index (`None` for a failed request), each step
/// asking for the alert of the same index.
pub open spec fn is_run(
    cs: Seq<CheckCycle>,
    outcomes: Seq<Option<GradeView>>,
    alerts: Seq<Option<AlertView>>,
) -> bool {
    &&& cs.len() == outcomes.len() + 1
    &&& alerts.len() == outcomes.len()
    &&& forall|k: int|
        0 <= k < outcomes.len() ==> #[trigger] detail_step(cs[k], outcomes[k], cs[k + 1], alerts[k])
}

proof fn lemma_run_positions(
    cs: Seq<CheckCycle>,
    outcomes: Seq<Option<GradeView>>,
    alerts: Seq<Option<AlertView>>,
    k: int,
)
    requires
        is_run(cs, outcomes, alerts),
        cs[0].position() + outcomes.len() <= cs[0].courses().len(),
        0 <= k <= outcomes.len(),
    ensures
        cs[k].position() == cs[0].position() + k,
        cs[k].courses() == cs[0].courses(),
    decreases k,
{
    if k > 0 {
        lemma_run_positions(cs, outcomes, alerts, k - 1);
        let j = k - 1;
        assert(detail_step(cs[j], outcomes[j], cs[j + 1], alerts[j]));
        assert(j + 1 == k);
    }
}

/// Failed requests anywhere in a cycle keep no course from being checked:
/// along any run of steps, step `k` handles the `k`-th pending course
/// whatever the earlier outcomes were; a failure leaves the grades alone and
/// asks for no alert; and a changed grade is recorded and alerted.
pub proof fn lemma_failures_do_not_block_later_courses(
    cs: Seq<CheckCycle>,
    outcomes: Seq<Option<GradeView>>,
    alerts: Seq<Option<AlertView>>,
)
    requires
        is_run(cs, outcomes, alerts),
        cs[0].position() + outcomes.len() <= cs[0].courses().len(),
    ensures
        forall|k: int|
            0 <= k <= outcomes.len() ==> #[trigger] cs[k].position() == cs[0].position() + k
                && cs[k].courses() == cs[0].courses(),
        forall|k: int|
            0 <= k < outcomes.len() && #[trigger] outcomes[k] is None ==> cs[k + 1].grades()
                == cs[k].grades() && alerts[k] is None,
        forall|k: int|
            0 <= k < outcomes.len() && #[trigger] outcomes[k] is Some && grade_changed(
                previous_of(cs[k].grades(), cs[0].courses()[cs[0].position() + k].0),
                outcomes[k]->0,
            ) ==> {
                let c = cs[0].courses()[cs[0].position() + k];
                &&& alerts[k] == Some((c.0, c.1, outcomes[k]->0))
                &&& cs[k + 1].grades() == cs[k].grades().insert(c.0, outcomes[k]->0)
                &&& cs[k + 1].dirty()
            },
{
    assert forall|k: int| 0 <= k <= outcomes.len() implies #[trigger] cs[k].position()
        == cs[0].position() + k && cs[k].courses() == cs[0].courses() by {
        lemma_run_positions(cs, outcomes, alerts, k);
    }
    assert forall|k: int| 0 <= k < outcomes.len() && #[trigger] outcomes[k] is None implies cs[k
        + 1].grades() == cs[k].grades() && alerts[k] is None by {
        lemma_run_positions(cs, outcomes, alerts, k);
        assert(detail_step(cs[k], outcomes[k], cs[k + 1], alerts[k]));
    }
    assert forall|k: int|
        0 <= k < outcomes.len() && #[trigger] outcomes[k] is Some && grade_changed(
            previous_of(cs[k].grades(), cs[0].courses()[cs[0].position() + k].0),
            outcomes[k]->0,
        ) implies {
        let c = cs[0].courses()[cs[0].position() + k];
        &&& alerts[k] == Some((c.0, c.1, outcomes[k]->0))
        &&& cs[k + 1].grades() == cs[k].grades().insert(c.0, outcomes[k]->0)
        &&& cs[k + 1].dirty()
    } by {
        lemma_run_positions(cs, outcomes, alerts, k);
        assert(detail_step(cs[k], outcomes[k], cs[k + 1], alerts[k]));
    }
}

} // verus!
