//! The semester menu of the one-shot grade display: one option per program
//! enrollment of each semester, and the way back from a chosen option to the
//! transcript.

use crate::portal::SemesterResult;
use crate::semester::{format_semester_name, semester_label};
use vstd::prelude::*;

verus! {

/// One choice of the menu.
pub struct MenuOption {
    /// Text shown: the semester's label, ` - `, and the program's title.
    pub label: String,
    pub semester_code: u32,
    /// Position of the program within the semester.
    pub program_index: usize,
}

/// What an option is to the contracts: label, code and program index.
pub type OptionView = (Seq<char>, u32, int);

impl View for MenuOption {
    type V = OptionView;

    open spec fn view(&self) -> OptionView {
        (self.label@, self.semester_code, self.program_index as int)
    }
}

/// The options of one semester, one per program, in order.
pub open spec fn semester_options(s: SemesterResult) -> Seq<OptionView> {
    Seq::new(
        s.programmes@.len(),
        |i: int|
            (
                semester_label(s.trimestre as nat) + " - "@ + s.programmes@[i].titre_programme@,
                s.trimestre,
                i,
            ),
    )
}

/// The options of a transcript, semester after semester.
pub open spec fn menu_entries(h: Seq<SemesterResult>) -> Seq<OptionView>
    decreases h.len(),
{
    if h.len() == 0 {
        Seq::empty()
    } else {
        menu_entries(h.drop_last()) + semester_options(h.last())
    }
}

/// The menu's options for a transcript.
pub fn menu_options(history: &Vec<SemesterResult>) -> (r: Vec<MenuOption>)
    ensures
        r@.map_values(|o: MenuOption| o@) == menu_entries(history@),
{
    let mut r: Vec<MenuOption> = Vec::new();
    let mut i: usize = 0;
    while i < history.len()
        invariant
            i <= history@.len(),
            r@.map_values(|o: MenuOption| o@) == menu_entries(history@.subrange(0, i as int)),
        decreases history@.len() - i,
    {
        let sem = &history[i];
        let name = format_semester_name(sem.trimestre);
        let ghost base = r@.map_values(|o: MenuOption| o@);
        let mut j: usize = 0;
        while j < sem.programmes.len()
            invariant
                i < history@.len(),
                sem == history@[i as int],
                name@ == semester_label(sem.trimestre as nat),
                j <= sem.programmes@.len(),
                r@.map_values(|o: MenuOption| o@) == base + semester_options(*sem).subrange(
                    0,
                    j as int,
                ),
            decreases sem.programmes@.len() - j,
        {
            let label = name.clone().concat(" - ").concat(sem.programmes[j].titre_programme.as_str());
            let ghost prev = r@;
            r.push(MenuOption { label, semester_code: sem.trimestre, program_index: j });
            proof {
                assert(r@.map_values(|o: MenuOption| o@) =~= prev.map_values(|o: MenuOption| o@).push(
                    r@.last()@,
                ));
                assert(semester_options(*sem).subrange(0, j + 1) =~= semester_options(
                    *sem,
                ).subrange(0, j as int).push(semester_options(*sem)[j as int]));
            }
            j = j + 1;
        }
        proof {
            assert(semester_options(*sem).subrange(0, j as int) =~= semester_options(*sem));
            assert(history@.subrange(0, i + 1).drop_last() =~= history@.subrange(0, i as int));
        }
        i = i + 1;
    }
    proof {
        assert(history@.subrange(0, history@.len() as int) =~= history@);
    }
    r
}

/// The transcript entry and program that a chosen option designates: the
/// first entry with the option's code, and the program at the option's
/// index in it; `None` when there is no such entry or program.
pub fn resolve_selection(history: &Vec<SemesterResult>, choice: &MenuOption) -> (r: Option<
    (usize, usize),
>)
    ensures
        match r {
            Some((i, p)) => i < history@.len() && history@[i as int].trimestre == choice.semester_code
                && p == choice.program_index && p < history@[i as int].programmes@.len() && (
                forall|j: int| 0 <= j < i ==> history@[j].trimestre != choice.semester_code),
            None => forall|i: int|
                0 <= i < history@.len() && history@[i].trimestre == choice.semester_code
                    ==> (exists|j: int| 0 <= j < i && history@[j].trimestre == choice.semester_code)
                    || choice.program_index >= history@[i].programmes@.len(),
        },
{
    let mut i: usize = 0;
    while i < history.len()
        invariant
            i <= history@.len(),
            forall|j: int| 0 <= j < i ==> history@[j].trimestre != choice.semester_code,
        decreases history@.len() - i,
    {
        if history[i].trimestre == choice.semester_code {
            if choice.program_index < history[i].programmes.len() {
                return Some((i, choice.program_index));
            } else {
                return None;
            }
        }
        i = i + 1;
    }
    None
}

} // verus!
