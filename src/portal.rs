//! The portal's transcript and course-detail records, and the pure steps
//! around its three requests: the token check, the newest-first order of the
//! transcript, and the lookup of a course's grade in a detail response.

use crate::grades::DetailActivity;
use vstd::multiset::Multiset;
use vstd::prelude::*;

verus! {

broadcast use vstd::seq_lib::group_to_multiset_ensures;

/// One course instance in a program enrollment.
pub struct Activity {
    /// Course code.
    pub sigle: String,
    /// Course title.
    pub titre: String,
    /// Grade shown in the transcript; informational only.
    pub note: Option<String>,
    /// Group number.
    pub groupe: u32,
}

/// A program enrollment within one semester.
pub struct Programme {
    pub code_prog: String,
    pub titre_programme: String,
    pub activites: Vec<Activity>,
}

/// One semester's record in the transcript.
pub struct SemesterResult {
    /// Semester code, `YYYYT`.
    pub trimestre: u32,
    pub programmes: Vec<Programme>,
}

/// Body of the transcript response.
pub struct ResumeData {
    pub resultats: Vec<SemesterResult>,
}

/// The transcript response.
pub struct ResumeResponse {
    pub data: ResumeData,
}

/// Program level of a course-detail response.
pub struct DetailProgramme {
    pub activites: Vec<DetailActivity>,
}

/// Semester level of a course-detail response.
pub struct DetailResult {
    pub programmes: Vec<DetailProgramme>,
}

/// Body of a course-detail response.
pub struct CourseDetailData {
    pub resultats: Vec<DetailResult>,
}

/// A course-detail response.
pub struct CourseDetailResponse {
    pub data: CourseDetailData,
}

/// Why a login answer is refused.
#[derive(PartialEq, Eq, Structural)]
pub enum PortalError {
    /// The login answer held an empty token.
    EmptyToken,
}

/// Which level of a course-detail response was empty.
#[derive(PartialEq, Eq, Structural)]
pub enum DetailError {
    /// The detail response held no semester result.
    NoResult,
    /// The first semester result held no program.
    NoProgramme,
    /// The first program held no activity.
    NoActivity,
}

/// Accepts the token of a login answer unless it is empty.
pub fn check_token(token: String) -> (r: Result<String, PortalError>)
    ensures
        token@.len() == 0 <==> r == Err::<String, PortalError>(PortalError::EmptyToken),
        token@.len() > 0 ==> (r matches Ok(t) && t@ == token@),
{
    if token.as_str().unicode_len() == 0 {
        Err(PortalError::EmptyToken)
    } else {
        Ok(token)
    }
}

/// The semester codes of a transcript never increase from one entry to the
/// next.
pub open spec fn newest_first(s: Seq<SemesterResult>) -> bool {
    forall|i: int, j: int| 0 <= i < j < s.len() ==> s[i].trimestre >= s[j].trimestre
}

/// `x` placed into `t` before the first entry whose code is not greater than
/// its own.
pub open spec fn insert_before_not_newer(t: Seq<SemesterResult>, x: SemesterResult) -> Seq<
    SemesterResult,
>
    decreases t.len(),
{
    if t.len() == 0 {
        seq![x]
    } else if t[0].trimestre > x.trimestre {
        seq![t[0]] + insert_before_not_newer(t.drop_first(), x)
    } else {
        seq![x] + t
    }
}

/// The stable newest-first order of a transcript: entries with a greater code
/// first, entries with equal codes in their original relative order.
pub open spec fn stable_desc(s: Seq<SemesterResult>) -> Seq<SemesterResult>
    decreases s.len(),
{
    if s.len() == 0 {
        Seq::empty()
    } else {
        insert_before_not_newer(stable_desc(s.drop_first()), s[0])
    }
}

/// Placing `x` at the first position whose code is not greater than its own
/// is `insert_before_not_newer`.
proof fn lemma_insert_at(t: Seq<SemesterResult>, x: SemesterResult, j: int)
    requires
        0 <= j <= t.len(),
        forall|k: int| 0 <= k < j ==> t[k].trimestre > x.trimestre,
        j < t.len() ==> t[j].trimestre <= x.trimestre,
    ensures
        insert_before_not_newer(t, x) == t.insert(j, x),
    decreases t.len(),
{
    if t.len() == 0 {
        assert(t.insert(j, x) =~= seq![x]);
    } else if j == 0 {
        assert(t.insert(j, x) =~= seq![x] + t);
    } else {
        let u = t.drop_first();
        assert forall|k: int| 0 <= k < j - 1 implies u[k].trimestre > x.trimestre by {
            assert(u[k] == t[k + 1]);
        }
        if j - 1 < u.len() {
            assert(u[j - 1] == t[j]);
        }
        lemma_insert_at(u, x, j - 1);
        assert(t.insert(j, x) =~= seq![t[0]] + u.insert(j - 1, x));
    }
}

/// The transcript's entries, most recent semester first; entries with equal
/// codes keep their order.
pub fn sort_transcript(entries: Vec<SemesterResult>) -> (r: Vec<SemesterResult>)
    ensures
        r@ == stable_desc(entries@),
        newest_first(r@),
        r@.to_multiset() == entries@.to_multiset(),
{
    let ghost all = entries@;
    let mut rest = entries;
    let mut out: Vec<SemesterResult> = Vec::new();
    proof {
        assert(all.subrange(all.len() as int, all.len() as int) =~= Seq::<SemesterResult>::empty());
    }
    while rest.len() > 0
        invariant
            rest@.len() <= all.len(),
            rest@ == all.subrange(0, rest@.len() as int),
            out@ == stable_desc(all.subrange(rest@.len() as int, all.len() as int)),
            newest_first(out@),
            out@.to_multiset().add(rest@.to_multiset()) == all.to_multiset(),
        decreases rest@.len(),
    {
        let ghost before = rest@;
        let x = rest.pop().unwrap();
        proof {
            assert(before == rest@.push(x));
            assert(rest@ =~= all.subrange(0, rest@.len() as int));
            let suf = all.subrange(rest@.len() as int, all.len() as int);
            assert(suf[0] == x);
            assert(suf.drop_first() =~= all.subrange(before.len() as int, all.len() as int));
        }
        let mut j: usize = 0;
        while j < out.len() && out[j].trimestre > x.trimestre
            invariant
                j <= out@.len(),
                forall|k: int| 0 <= k < j ==> out@[k].trimestre > x.trimestre,
            decreases out@.len() - j,
        {
            j = j + 1;
        }
        let ghost prev = out@;
        proof {
            lemma_insert_at(prev, x, j as int);
        }
        out.insert(j, x);
        proof {
            assert forall|a: int, b: int| 0 <= a < b < out@.len() implies out@[a].trimestre
                >= out@[b].trimestre by {
                if b < j {
                    assert(out@[a] == prev[a] && out@[b] == prev[b]);
                } else if b == j {
                    assert(out@[a] == prev[a]);
                } else if a < j {
                    assert(out@[a] == prev[a] && out@[b] == prev[b - 1]);
                    assert(prev[j as int].trimestre <= x.trimestre);
                } else if a == j {
                    assert(out@[b] == prev[b - 1]);
                    assert(prev[j as int].trimestre <= x.trimestre);
                } else {
                    assert(out@[a] == prev[a - 1] && out@[b] == prev[b - 1]);
                }
            }
            assert(out@.to_multiset() == prev.to_multiset().insert(x));
            assert(before.to_multiset() == rest@.to_multiset().insert(x));
            assert(out@.to_multiset().add(rest@.to_multiset()) =~= prev.to_multiset().add(
                before.to_multiset(),
            ));
        }
    }
    proof {
        assert(rest@.to_multiset() =~= Multiset::empty());
        assert(out@.to_multiset().add(rest@.to_multiset()) =~= out@.to_multiset());
        assert(all.subrange(0, all.len() as int) =~= all);
    }
    out
}

/// The grade in a course-detail response: the first activity of the first
/// program of the first semester result.
pub fn extract_detail(resp: &CourseDetailResponse) -> (r: Result<DetailActivity, DetailError>)
    ensures
        resp.data.resultats@.len() == 0 <==> r == Err::<DetailActivity, DetailError>(
            DetailError::NoResult,
        ),
        resp.data.resultats@.len() > 0 && resp.data.resultats@[0].programmes@.len() == 0 <==> r
            == Err::<DetailActivity, DetailError>(DetailError::NoProgramme),
        resp.data.resultats@.len() > 0 && resp.data.resultats@[0].programmes@.len() > 0
            && resp.data.resultats@[0].programmes@[0].activites@.len() == 0 <==> r == Err::<
            DetailActivity,
            DetailError,
        >(DetailError::NoActivity),
        resp.data.resultats@.len() > 0 && resp.data.resultats@[0].programmes@.len() > 0
            && resp.data.resultats@[0].programmes@[0].activites@.len() > 0 <==> r is Ok,
        r matches Ok(d) ==> d@ == resp.data.resultats@[0].programmes@[0].activites@[0]@,
{
    if resp.data.resultats.len() == 0 {
        return Err(DetailError::NoResult);
    }
    let res = &resp.data.resultats[0];
    if res.programmes.len() == 0 {
        return Err(DetailError::NoProgramme);
    }
    let prog = &res.programmes[0];
    if prog.activites.len() == 0 {
        return Err(DetailError::NoActivity);
    }
    Ok(prog.activites[0].copy())
}

/// Index of the first transcript entry for semester `code`, if any.
pub fn find_semester(transcript: &Vec<SemesterResult>, code: u32) -> (r: Option<usize>)
    ensures
        match r {
            Some(i) => i < transcript@.len() && transcript@[i as int].trimestre == code
                && forall|j: int| 0 <= j < i ==> transcript@[j].trimestre != code,
            None => forall|j: int| 0 <= j < transcript@.len() ==> transcript@[j].trimestre != code,
        },
{
    let mut i: usize = 0;
    while i < transcript.len()
        invariant
            i <= transcript@.len(),
            forall|j: int| 0 <= j < i ==> transcript@[j].trimestre != code,
        decreases transcript@.len() - i,
    {
        if transcript[i].trimestre == code {
            return Some(i);
        }
        i = i + 1;
    }
    None
}

/// The semester and program that the one-shot grade display shows for today's
/// code: the first program of the entry for `code`; without such an entry,
/// the first program of the first (latest) entry. Indices into the transcript
/// and into that entry's programs.
pub fn current_or_latest(transcript: &Vec<SemesterResult>, code: u32) -> (r: Option<
    (usize, usize),
>)
    ensures
        (exists|j: int| 0 <= j < transcript@.len() && transcript@[j].trimestre == code) ==> match r {
            Some((i, p)) => p == 0 && i < transcript@.len() && transcript@[i as int].trimestre
                == code && transcript@[i as int].programmes@.len() > 0 && forall|j: int|
                0 <= j < i ==> transcript@[j].trimestre != code,
            None => exists|i: int|
                0 <= i < transcript@.len() && transcript@[i].trimestre == code
                    && transcript@[i].programmes@.len() == 0 && forall|j: int|
                    0 <= j < i ==> transcript@[j].trimestre != code,
        },
        (forall|j: int| 0 <= j < transcript@.len() ==> transcript@[j].trimestre != code) ==> r == (
        if transcript@.len() > 0 && transcript@[0].programmes@.len() > 0 {
            Some((0usize, 0usize))
        } else {
            None::<(usize, usize)>
        }),
{
    match find_semester(transcript, code) {
        Some(i) => {
            if transcript[i].programmes.len() > 0 {
                Some((i, 0))
            } else {
                None
            }
        },
        None => {
            if transcript.len() > 0 && transcript[0].programmes.len() > 0 {
                Some((0, 0))
            } else {
                None
            }
        },
    }
}

} // verus!
