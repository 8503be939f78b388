//! The grade state: the last recorded grade of each course, keyed by the
//! course's sigle, at most one record per sigle.

use crate::grades::{has_changed, grade_changed, CourseState, DetailActivity, GradeView};
use vstd::prelude::*;

verus! {

/// The recorded grade of each course, by sigle.
pub struct GradesState {
    entries: Vec<(String, CourseState)>,
    model: Ghost<Map<Seq<char>, GradeView>>,
}

/// The mapping that a list of `(sigle, record)` pairs describes when no sigle
/// occurs twice.
pub open spec fn entries_map(s: Seq<(String, CourseState)>) -> Map<Seq<char>, GradeView>
    decreases s.len(),
{
    if s.len() == 0 {
        Map::empty()
    } else {
        entries_map(s.drop_last()).insert(s.last().0@, s.last().1@)
    }
}

/// No sigle occurs twice in the list.
pub open spec fn keys_unique(s: Seq<(String, CourseState)>) -> bool {
    forall|i: int, j: int| 0 <= i < j < s.len() ==> s[i].0@ != s[j].0@
}

/// With unique sigles, the mapping holds each pair and nothing else.
pub proof fn lemma_entries_map(s: Seq<(String, CourseState)>)
    requires
        keys_unique(s),
    ensures
        forall|i: int|
            0 <= i < s.len() ==> #[trigger] entries_map(s).contains_key(s[i].0@)
                && entries_map(s)[s[i].0@] == s[i].1@,
        forall|k: Seq<char>|
            #[trigger] entries_map(s).contains_key(k) ==> exists|i: int|
                0 <= i < s.len() && s[i].0@ == k,
    decreases s.len(),
{
    if s.len() > 0 {
        let p = s.drop_last();
        assert(keys_unique(p));
        lemma_entries_map(p);
        assert(entries_map(s) == entries_map(p).insert(s.last().0@, s.last().1@));
        assert forall|i: int| 0 <= i < s.len() implies #[trigger] entries_map(s).contains_key(
            s[i].0@,
        ) && entries_map(s)[s[i].0@] == s[i].1@ by {
            if i < s.len() - 1 {
                assert(s[i] == p[i]);
            }
        }
        assert forall|k: Seq<char>| #[trigger] entries_map(s).contains_key(k) implies exists|i: int|
            0 <= i < s.len() && s[i].0@ == k by {
            if k != s.last().0@ {
                let i = choose|i: int| 0 <= i < p.len() && p[i].0@ == k;
                assert(s[i].0@ == k);
            }
        }
    }
}

/// Storing a state as its list of entries and loading that list gives back
/// the same mapping: the stored list holds each record of the state under its
/// sigle, names no other sigle, and any state loaded from it equals the
/// state that was stored.
pub proof fn lemma_store_then_load(
    state: GradesState,
    stored: Seq<(String, CourseState)>,
    loaded: GradesState,
)
    requires
        state.wf(),
        keys_unique(stored),
        entries_map(stored) == state@,
        loaded@ == entries_map(stored),
    ensures
        loaded@ == state@,
        forall|i: int|
            0 <= i < stored.len() ==> #[trigger] state@.contains_key(stored[i].0@)
                && state@[stored[i].0@] == stored[i].1@,
        forall|k: Seq<char>|
            #[trigger] state@.contains_key(k) ==> exists|i: int|
                0 <= i < stored.len() && stored[i].0@ == k,
{
    lemma_entries_map(stored);
    assert forall|i: int| 0 <= i < stored.len() implies #[trigger] state@.contains_key(
        stored[i].0@,
    ) && state@[stored[i].0@] == stored[i].1@ by {
        assert(entries_map(stored).contains_key(stored[i].0@));
    }
}

impl View for GradesState {
    type V = Map<Seq<char>, GradeView>;

    closed spec fn view(&self) -> Map<Seq<char>, GradeView> {
        self.model@
    }
}

impl GradesState {
    /// The state is well formed: one entry per sigle, and the entries are
    /// exactly the mapping.
    pub closed spec fn wf(&self) -> bool {
        &&& keys_unique(self.entries@)
        &&& forall|i: int|
            0 <= i < self.entries@.len() ==> #[trigger] self.model@.contains_key(
                self.entries@[i].0@,
            ) && self.model@[self.entries@[i].0@] == self.entries@[i].1@
        &&& forall|k: Seq<char>|
            #[trigger] self.model@.contains_key(k) ==> exists|i: int|
                0 <= i < self.entries@.len() && self.entries@[i].0@ == k
    }

    /// The empty state, as on a cold start.
    pub fn new() -> (r: GradesState)
        ensures
            r.wf(),
            r@ == Map::<Seq<char>, GradeView>::empty(),
    {
        GradesState { entries: Vec::new(), model: Ghost(Map::empty()) }
    }

    /// Number of courses recorded.
    pub fn len(&self) -> (r: usize)
        requires
            self.wf(),
        ensures
            r == self@.dom().len(),
    {
        proof {
            self.lemma_dom_finite_len();
        }
        self.entries.len()
    }

    proof fn lemma_dom_finite_len(&self)
        requires
            self.wf(),
        ensures
            self@.dom().finite(),
            self@.dom().len() == self.entries@.len(),
    {
        let keys = self.entries@.map_values(|e: (String, CourseState)| e.0@);
        assert forall|i: int, j: int| 0 <= i < j < keys.len() implies keys[i] != keys[j] by {}
        keys.unique_seq_to_set();
        assert(self@.dom() =~= keys.to_set()) by {
            assert forall|k: Seq<char>| self@.dom().contains(k) implies keys.to_set().contains(k) by {
                let i = choose|i: int| 0 <= i < self.entries@.len() && self.entries@[i].0@ == k;
                assert(keys[i] == k);
            }
            assert forall|k: Seq<char>| keys.to_set().contains(k) implies self@.dom().contains(k) by {
                let i = choose|i: int| 0 <= i < keys.len() && keys[i] == k;
                assert(self.model@.contains_key(self.entries@[i].0@));
            }
        }
    }

    /// Index of the entry for `sigle`, if there is one.
    fn find(&self, sigle: &String) -> (r: Option<usize>)
        requires
            self.wf(),
        ensures
            match r {
                Some(i) => i < self.entries@.len() && self.entries@[i as int].0@ == sigle@,
                None => !self@.contains_key(sigle@),
            },
    {
        let mut i: usize = 0;
        while i < self.entries.len()
            invariant
                i <= self.entries@.len(),
                forall|j: int| 0 <= j < i ==> self.entries@[j].0@ != sigle@,
            decreases self.entries@.len() - i,
        {
            if self.entries[i].0.eq(sigle) {
                return Some(i);
            }
            i = i + 1;
        }
        None
    }

    /// The record for `sigle`, if there is one.
    pub fn get(&self, sigle: &String) -> (r: Option<&CourseState>)
        requires
            self.wf(),
        ensures
            match r {
                Some(s) => self@.contains_key(sigle@) && self@[sigle@] == s@,
                None => !self@.contains_key(sigle@),
            },
    {
        match self.find(sigle) {
            Some(i) => {
                proof {
                    assert(self.model@.contains_key(self.entries@[i as int].0@));
                }
                Some(&self.entries[i].1)
            },
            None => None,
        }
    }

    /// Records `state` for `sigle`, replacing any earlier record.
    pub fn insert(&mut self, sigle: String, state: CourseState)
        requires
            old(self).wf(),
        ensures
            final(self).wf(),
            final(self)@ == old(self)@.insert(sigle@, state@),
    {
        let ghost k = sigle@;
        let ghost v = state@;
        match self.find(&sigle) {
            Some(i) => {
                self.entries.set(i, (sigle, state));
                self.model = Ghost(self.model@.insert(k, v));
                assert forall|k2: Seq<char>| #[trigger] self.model@.contains_key(k2) implies exists|
                    j: int,
                | 0 <= j < self.entries@.len() && self.entries@[j].0@ == k2 by {
                    if k2 != k {
                        let j = choose|j: int|
                            0 <= j < old(self).entries@.len() && old(self).entries@[j].0@ == k2;
                        assert(self.entries@[j].0@ == k2);
                    } else {
                        assert(self.entries@[i as int].0@ == k2);
                    }
                }
            },
            None => {
                self.entries.push((sigle, state));
                self.model = Ghost(self.model@.insert(k, v));
                assert forall|k2: Seq<char>| #[trigger] self.model@.contains_key(k2) implies exists|
                    j: int,
                | 0 <= j < self.entries@.len() && self.entries@[j].0@ == k2 by {
                    if k2 != k {
                        let j = choose|j: int|
                            0 <= j < old(self).entries@.len() && old(self).entries@[j].0@ == k2;
                        assert(self.entries@[j].0@ == k2);
                    } else {
                        assert(self.entries@[self.entries@.len() - 1].0@ == k2);
                    }
                }
            },
        }
    }

    /// The records as `(sigle, record)` pairs, one per sigle: the form in
    /// which the state is stored.
    pub fn to_entries(&self) -> (r: Vec<(String, CourseState)>)
        requires
            self.wf(),
        ensures
            keys_unique(r@),
            entries_map(r@) == self@,
    {
        let mut r: Vec<(String, CourseState)> = Vec::new();
        let mut i: usize = 0;
        while i < self.entries.len()
            invariant
                i <= self.entries@.len(),
                r@.len() == i,
                forall|j: int|
                    0 <= j < i ==> r@[j].0@ == self.entries@[j].0@ && r@[j].1@
                        == self.entries@[j].1@,
            decreases self.entries@.len() - i,
        {
            let e = &self.entries[i];
            r.push((e.0.clone(), e.1.copy()));
            i = i + 1;
        }
        proof {
            lemma_entries_map(r@);
            assert(entries_map(r@) =~= self@) by {
                assert forall|k: Seq<char>| entries_map(r@).contains_key(k) implies self@.contains_key(k)
                    && entries_map(r@)[k] == self@[k] by {
                    let j = choose|j: int| 0 <= j < r@.len() && r@[j].0@ == k;
                    assert(self.model@.contains_key(self.entries@[j].0@));
                }
                assert forall|k: Seq<char>| self@.contains_key(k) implies entries_map(
                    r@,
                ).contains_key(k) by {
                    let j = choose|j: int| 0 <= j < self.entries@.len() && self.entries@[j].0@ == k;
                    assert(r@[j].0@ == k);
                }
            }
        }
        r
    }

    /// The state that a list of `(sigle, record)` pairs describes; where a
    /// sigle occurs twice, the later pair wins.
    pub fn from_entries(entries: &Vec<(String, CourseState)>) -> (r: GradesState)
        ensures
            r.wf(),
            r@ == entries_map(entries@),
    {
        let mut r = GradesState::new();
        let mut i: usize = 0;
        while i < entries.len()
            invariant
                i <= entries@.len(),
                r.wf(),
                r@ == entries_map(entries@.subrange(0, i as int)),
            decreases entries@.len() - i,
        {
            let e = &entries[i];
            proof {
                assert(entries@.subrange(0, i + 1).drop_last() =~= entries@.subrange(0, i as int));
            }
            r.insert(e.0.clone(), e.1.copy());
            i = i + 1;
        }
        proof {
            assert(entries@.subrange(0, entries@.len() as int) =~= entries@);
        }
        r
    }

    /// The change test for `sigle` between its record in this state, if any,
    /// and its current grade.
    pub fn has_grade_changed(&self, sigle: &String, new_data: &DetailActivity) -> (r: bool)
        requires
            self.wf(),
        ensures
            r == grade_changed(
                if self@.contains_key(sigle@) {
                    Some(self@[sigle@])
                } else {
                    None
                },
                new_data@,
            ),
    {
        has_changed(self.get(sigle), new_data)
    }
}

} // verus!
