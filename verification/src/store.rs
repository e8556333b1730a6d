//! The persistence collaborator: one record per FQID.
//!
//! The engine assumes that each FQID maps to exactly one step record and
//! that a write is visible to every following read. The storage here keeps
//! the records in memory, in first-write order; callers that keep records
//! elsewhere load them in through `write_step` and read them back out.

use vstd::prelude::*;
use vstd::string::StringExecFns;

use crate::error::{GlowError, GlowErrorView};
use crate::step::{spec_step_fqid, Step, StepView};
use crate::strutil::str_eq;

verus! {

/// The position of the record with the given FQID, or `-1`.
pub open spec fn spec_store_idx(ss: Seq<StepView>, fqid: Seq<char>) -> int
    decreases ss.len(),
{
    if ss.len() == 0 {
        -1
    } else if spec_step_fqid(ss[0]) == fqid {
        0
    } else {
        let r = spec_store_idx(ss.drop_first(), fqid);
        if r < 0 {
            -1
        } else {
            r + 1
        }
    }
}

/// Whether a record with the given FQID exists.
pub open spec fn spec_has_step(ss: Seq<StepView>, fqid: Seq<char>) -> bool {
    spec_store_idx(ss, fqid) >= 0
}

/// The record with the given FQID.
pub open spec fn spec_step_at(ss: Seq<StepView>, fqid: Seq<char>) -> StepView {
    ss[spec_store_idx(ss, fqid)]
}

/// Whether no two records share an FQID.
pub open spec fn spec_store_wf(ss: Seq<StepView>) -> bool {
    forall|i: int, j: int|
        0 <= i < ss.len() && 0 <= j < ss.len() && i != j ==> spec_step_fqid(ss[i])
            != spec_step_fqid(ss[j])
}

/// The record position found is in range, carries the FQID, and is the
/// first such position; a negative answer means no record carries it.
pub proof fn lemma_store_idx_props(ss: Seq<StepView>, fqid: Seq<char>)
    ensures
        spec_store_idx(ss, fqid) >= 0 ==> 0 <= spec_store_idx(ss, fqid) < ss.len()
            && spec_step_fqid(ss[spec_store_idx(ss, fqid)]) == fqid,
        spec_store_idx(ss, fqid) < 0 ==> forall|j: int|
            0 <= j < ss.len() ==> spec_step_fqid(#[trigger] ss[j]) != fqid,
    decreases ss.len(),
{
    if ss.len() > 0 && spec_step_fqid(ss[0]) != fqid {
        lemma_store_idx_props(ss.drop_first(), fqid);
        let rest = ss.drop_first();
        if spec_store_idx(ss, fqid) < 0 {
            assert forall|j: int| 0 <= j < ss.len() implies spec_step_fqid(#[trigger] ss[j])
                != fqid by {
                if j > 0 {
                    assert(rest[j - 1] == ss[j]);
                }
            }
        } else {
            assert(rest[spec_store_idx(rest, fqid)] == ss[spec_store_idx(ss, fqid)]);
        }
    }
}

/// A position that carries the FQID while every earlier one does not is the
/// record's position.
pub proof fn lemma_store_idx_at(ss: Seq<StepView>, fqid: Seq<char>, i: int)
    requires
        0 <= i < ss.len(),
        spec_step_fqid(ss[i]) == fqid,
        forall|j: int| 0 <= j < i ==> spec_step_fqid(#[trigger] ss[j]) != fqid,
    ensures
        spec_store_idx(ss, fqid) == i,
    decreases ss.len(),
{
    if i > 0 {
        let rest = ss.drop_first();
        assert(rest[i - 1] == ss[i]);
        assert forall|j: int| 0 <= j < i - 1 implies spec_step_fqid(#[trigger] rest[j])
            != fqid by {
            assert(rest[j] == ss[j + 1]);
        }
        lemma_store_idx_at(rest, fqid, i - 1);
    }
}

/// In-memory step record storage, keyed by FQID.
#[derive(Debug)]
pub struct Storage {
    steps: Vec<Step>,
}

impl View for Storage {
    type V = Seq<StepView>;

    closed spec fn view(&self) -> Seq<StepView> {
        self.steps@.map_values(|s: Step| s@)
    }
}

impl Storage {
    /// Create an empty storage.
    pub fn new() -> (r: Self)
        ensures
            r@ == Seq::<StepView>::empty(),
            spec_store_wf(r@),
    {
        let r = Storage { steps: Vec::new() };
        proof {
            assert(r@ =~= Seq::<StepView>::empty());
        }
        r
    }

    /// The number of records held.
    pub fn len(&self) -> (r: usize)
        ensures
            r == self@.len(),
    {
        self.steps.len()
    }

    /// Find the position of the record with the given FQID.
    fn find_index(&self, fqid: &str) -> (r: Option<usize>)
        ensures
            match r {
                Some(i) => i == spec_store_idx(self@, fqid@),
                None => spec_store_idx(self@, fqid@) < 0,
            },
    {
        let n = self.steps.len();
        let mut i: usize = 0;
        while i < n
            invariant
                0 <= i <= n,
                n == self@.len(),
                forall|j: int| 0 <= j < i ==> spec_step_fqid(#[trigger] self@[j]) != fqid@,
            decreases n - i,
        {
            if str_eq(self.steps[i].fqid(), fqid) {
                proof {
                    assert(spec_step_fqid(self@[i as int]) == fqid@);
                    lemma_store_idx_at(self@, fqid@, i as int);
                }
                return Some(i);
            }
            i = i + 1;
        }
        proof {
            lemma_store_idx_props(self@, fqid@);
            if spec_store_idx(self@, fqid@) >= 0 {
                assert(spec_step_fqid(self@[spec_store_idx(self@, fqid@)]) == fqid@);
            }
        }
        None
    }

    /// The FQIDs of all records, in storage order.
    pub fn fqids(&self) -> (r: Vec<String>)
        ensures
            r@.len() == self@.len(),
            forall|i: int| 0 <= i < self@.len() ==> r@[i]@ == spec_step_fqid(#[trigger] self@[i]),
    {
        let n = self.steps.len();
        let mut out: Vec<String> = Vec::new();
        let mut i: usize = 0;
        while i < n
            invariant
                0 <= i <= n,
                n == self@.len(),
                out@.len() == i,
                forall|j: int| 0 <= j < i ==> out@[j]@ == spec_step_fqid(#[trigger] self@[j]),
            decreases n - i,
        {
            out.push(String::from_str(self.steps[i].fqid()));
            i = i + 1;
        }
        out
    }

    /// Check if a record with the given FQID exists.
    pub fn step_exists(&self, fqid: &str) -> (r: bool)
        ensures
            r == spec_has_step(self@, fqid@),
    {
        self.find_index(fqid).is_some()
    }

    /// Read the record with the given FQID.
    pub fn read_step(&self, fqid: &str) -> (r: Result<Step, GlowError>)
        ensures
            match r {
                Ok(s) => spec_has_step(self@, fqid@) && s@ == spec_step_at(self@, fqid@),
                Err(e) => !spec_has_step(self@, fqid@) && e@ == (GlowErrorView::StepNotFound {
                    fqid: fqid@,
                }),
            },
    {
        proof {
            lemma_store_idx_props(self@, fqid@);
        }
        match self.find_index(fqid) {
            Some(i) => Ok(self.steps[i].clone()),
            None => Err(GlowError::StepNotFound { fqid: String::from_str(fqid) }),
        }
    }

    /// Write a record: replace the record with the same FQID, or append a
    /// new one. Uniqueness of FQIDs is preserved.
    pub fn write_step(&mut self, step: &Step)
        ensures
            ({
                let key = spec_step_fqid(step@);
                &&& spec_has_step(old(self)@, key) ==> final(self)@ == old(self)@.update(
                    spec_store_idx(old(self)@, key),
                    step@,
                )
                &&& !spec_has_step(old(self)@, key) ==> final(self)@ == old(self)@.push(step@)
                &&& spec_store_wf(old(self)@) ==> spec_store_wf(final(self)@)
            }),
    {
        let ghost key = spec_step_fqid(step@);
        let ghost olds = self@;
        proof {
            lemma_store_idx_props(olds, key);
        }
        match self.find_index(step.fqid()) {
            Some(i) => {
                self.steps.remove(i);
                self.steps.insert(i, step.clone());
                proof {
                    assert(self@ =~= olds.update(i as int, step@));
                    if spec_store_wf(olds) {
                        assert forall|a: int, b: int|
                            0 <= a < self@.len() && 0 <= b < self@.len() && a != b implies
                            spec_step_fqid(self@[a]) != spec_step_fqid(self@[b]) by {
                            assert(spec_step_fqid(olds[i as int]) == key);
                            if a != i && b != i {
                                assert(self@[a] == olds[a] && self@[b] == olds[b]);
                            } else if a == i {
                                assert(self@[b] == olds[b]);
                                assert(spec_step_fqid(olds[b]) != key);
                            } else {
                                assert(self@[a] == olds[a]);
                                assert(spec_step_fqid(olds[a]) != key);
                            }
                        }
                    }
                }
            },
            None => {
                self.steps.push(step.clone());
                proof {
                    assert(self@ =~= olds.push(step@));
                    if spec_store_wf(olds) {
                        assert forall|a: int, b: int|
                            0 <= a < self@.len() && 0 <= b < self@.len() && a != b implies
                            spec_step_fqid(self@[a]) != spec_step_fqid(self@[b]) by {
                            if a < olds.len() && b < olds.len() {
                                assert(self@[a] == olds[a] && self@[b] == olds[b]);
                            } else if a == olds.len() {
                                assert(self@[b] == olds[b]);
                                assert(spec_step_fqid(olds[b]) != key);
                            } else {
                                assert(self@[a] == olds[a]);
                                assert(spec_step_fqid(olds[a]) != key);
                            }
                        }
                    }
                }
            },
        }
    }
}

/// An update at the record's own position leaves every other record in
/// place, and lookups see exactly the new record under its key.
pub proof fn lemma_store_update(ss: Seq<StepView>, fqid: Seq<char>, s: StepView)
    requires
        spec_store_wf(ss),
        spec_has_step(ss, fqid),
        spec_step_fqid(s) == fqid,
    ensures
        spec_store_idx(ss.update(spec_store_idx(ss, fqid), s), fqid) == spec_store_idx(ss, fqid),
        spec_step_at(ss.update(spec_store_idx(ss, fqid), s), fqid) == s,
        forall|f2: Seq<char>| f2 != fqid ==> spec_store_idx(ss.update(spec_store_idx(ss, fqid), s), f2)
            == spec_store_idx(ss, f2),
        forall|f2: Seq<char>| f2 != fqid && spec_has_step(ss, f2) ==> spec_step_at(
            ss.update(spec_store_idx(ss, fqid), s),
            f2,
        ) == spec_step_at(ss, f2),
{
    let i = spec_store_idx(ss, fqid);
    lemma_store_idx_props(ss, fqid);
    let ss2 = ss.update(i, s);
    assert forall|j: int| 0 <= j < i implies spec_step_fqid(#[trigger] ss2[j]) != fqid by {
        assert(ss2[j] == ss[j]);
    }
    lemma_store_idx_at(ss2, fqid, i);
    assert forall|f2: Seq<char>| f2 != fqid implies spec_store_idx(ss2, f2) == spec_store_idx(
        ss,
        f2,
    ) by {
        lemma_store_idx_update_other(ss, i, s, f2);
    }
    assert forall|f2: Seq<char>| f2 != fqid && spec_has_step(ss, f2) implies spec_step_at(
        ss2,
        f2,
    ) == spec_step_at(ss, f2) by {
        lemma_store_idx_props(ss, f2);
        lemma_store_idx_update_other(ss, i, s, f2);
        assert(spec_store_idx(ss, f2) != i);
    }
}

/// Updating one record does not move lookups for other keys.
proof fn lemma_store_idx_update_other(ss: Seq<StepView>, i: int, s: StepView, f2: Seq<char>)
    requires
        0 <= i < ss.len(),
        spec_step_fqid(s) != f2,
        spec_step_fqid(ss[i]) != f2,
    ensures
        spec_store_idx(ss.update(i, s), f2) == spec_store_idx(ss, f2),
    decreases ss.len(),
{
    let ss2 = ss.update(i, s);
    if i == 0 {
        assert(ss2.drop_first() =~= ss.drop_first());
    } else {
        assert(ss2[0] == ss[0]);
        if spec_step_fqid(ss[0]) != f2 {
            assert(ss2.drop_first() =~= ss.drop_first().update(i - 1, s));
            lemma_store_idx_update_other(ss.drop_first(), i - 1, s, f2);
        }
    }
}

/// Appending a new record does not move lookups for other keys, and the new
/// record is found under its own key.
pub proof fn lemma_store_push(ss: Seq<StepView>, s: StepView)
    requires
        !spec_has_step(ss, spec_step_fqid(s)),
    ensures
        spec_store_idx(ss.push(s), spec_step_fqid(s)) == ss.len(),
        spec_step_at(ss.push(s), spec_step_fqid(s)) == s,
        forall|f2: Seq<char>| f2 != spec_step_fqid(s) ==> spec_store_idx(ss.push(s), f2)
            == spec_store_idx(ss, f2),
        forall|f2: Seq<char>| f2 != spec_step_fqid(s) && spec_has_step(ss, f2) ==> spec_step_at(
            ss.push(s),
            f2,
        ) == spec_step_at(ss, f2),
{
    let key = spec_step_fqid(s);
    let ss2 = ss.push(s);
    lemma_store_idx_props(ss, key);
    assert forall|j: int| 0 <= j < ss.len() implies spec_step_fqid(#[trigger] ss2[j]) != key by {
        assert(ss2[j] == ss[j]);
    }
    assert(ss2[ss.len() as int] == s);
    lemma_store_idx_at(ss2, key, ss.len() as int);
    assert forall|f2: Seq<char>| f2 != key implies spec_store_idx(ss2, f2) == spec_store_idx(
        ss,
        f2,
    ) by {
        lemma_store_idx_push_other(ss, s, f2);
    }
    assert forall|f2: Seq<char>| f2 != key && spec_has_step(ss, f2) implies spec_step_at(
        ss2,
        f2,
    ) == spec_step_at(ss, f2) by {
        lemma_store_idx_props(ss, f2);
        lemma_store_idx_push_other(ss, s, f2);
        assert(ss2[spec_store_idx(ss, f2)] == ss[spec_store_idx(ss, f2)]);
    }
}

/// Appending a record with a different key does not move a lookup.
proof fn lemma_store_idx_push_other(ss: Seq<StepView>, s: StepView, f2: Seq<char>)
    requires
        spec_step_fqid(s) != f2,
    ensures
        spec_store_idx(ss.push(s), f2) == spec_store_idx(ss, f2),
    decreases ss.len(),
{
    let ss2 = ss.push(s);
    if ss.len() == 0 {
        assert(ss2[0] == s);
        assert(ss2.drop_first() =~= Seq::<StepView>::empty());
        assert(spec_store_idx(Seq::<StepView>::empty(), f2) == -1);
    } else {
        assert(ss2[0] == ss[0]);
        assert(ss2.drop_first() =~= ss.drop_first().push(s));
        lemma_store_idx_push_other(ss.drop_first(), s, f2);
    }
}

/// A position that carries an FQID witnesses that a record exists.
pub proof fn lemma_store_idx_at_exists(ss: Seq<StepView>, f: Seq<char>, i: int)
    requires
        0 <= i < ss.len(),
        spec_step_fqid(ss[i]) == f,
    ensures
        spec_has_step(ss, f),
    decreases ss.len(),
{
    lemma_store_idx_props(ss, f);
}

} // verus!
