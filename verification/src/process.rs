//! Runtime processes: a step-as-process with its iterations.

use vstd::prelude::*;
use vstd::string::StrSliceExecFns;
use vstd::string::StringExecFns;

use crate::status::StepStatus;
use crate::step::{spec_step_fqid, Step, StepDefinition, StepView};
use crate::strutil::{clone_opt_string, opt_view, spec_dec_str, str_eq, usize_to_string};

verus! {

broadcast use vstd::seq_lib::group_seq_lib_default;

/// A process definition is a step definition with sub-steps.
pub type ProcessDefinition = StepDefinition;

/// A single iteration of a process.
#[derive(Debug)]
pub struct Iteration {
    /// Iteration number (1-based).
    pub number: u32,
    /// Steps in this iteration.
    pub steps: Vec<Step>,
    /// Iteration summary.
    pub summary: Option<String>,
    /// Whether this iteration is complete.
    pub is_complete: bool,
}

/// The mathematical model of an iteration.
pub struct IterationView {
    pub number: u32,
    pub steps: Seq<StepView>,
    pub summary: Option<Seq<char>>,
    pub is_complete: bool,
}

impl View for Iteration {
    type V = IterationView;

    open spec fn view(&self) -> IterationView {
        IterationView {
            number: self.number,
            steps: self.steps@.map_values(|s: Step| s@),
            summary: opt_view(self.summary),
            is_complete: self.is_complete,
        }
    }
}

/// Runtime process with iterations.
#[derive(Debug)]
pub struct Process {
    /// Process step data.
    pub step: Step,
    /// Current iteration number (1-based; zero before any iteration).
    pub current_iteration: u32,
    /// Iteration history.
    pub iterations: Vec<Iteration>,
}

/// Step counts by status.
#[derive(Debug, Clone, Copy, PartialEq, Eq, Structural)]
pub struct StatusCounts {
    pub wait: usize,
    pub todo: usize,
    pub in_progress: usize,
    pub done: usize,
}

impl Default for StatusCounts {
    /// All counters start at zero.
    fn default() -> (r: Self)
        ensures
            r.wait == 0 && r.todo == 0 && r.in_progress == 0 && r.done == 0,
    {
        StatusCounts { wait: 0, todo: 0, in_progress: 0, done: 0 }
    }
}

impl StatusCounts {
    /// Get the total count.
    pub fn total(&self) -> (r: usize)
        requires
            self.wait + self.todo + self.in_progress + self.done <= usize::MAX,
        ensures
            r == self.wait + self.todo + self.in_progress + self.done,
    {
        self.wait + self.todo + self.in_progress + self.done
    }

    /// Get the completion percentage: done steps over all steps, as a whole
    /// percentage, and zero when there is nothing to count.
    pub fn completion_percentage(&self) -> (r: u64)
        requires
            self.wait + self.todo + self.in_progress + self.done <= usize::MAX,
        ensures
            r == (if self.wait + self.todo + self.in_progress + self.done == 0 {
                0int
            } else {
                self.done * 100int / (self.wait + self.todo + self.in_progress + self.done)
            }),
    {
        let total = self.total();
        if total == 0 {
            0
        } else {
            let num: u128 = (self.done as u128) * 100;
            let q: u128 = num / (total as u128);
            proof {
                assert(self.done * 100int <= total * 100int) by (nonlinear_arith)
                    requires self.done <= total;
                assert(self.done * 100int / total as int <= 100int) by (nonlinear_arith)
                    requires self.done <= total && total > 0;
            }
            q as u64
        }
    }
}

/// The number of steps in the given status.
pub open spec fn spec_steps_count(ss: Seq<StepView>, st: StepStatus) -> nat
    decreases ss.len(),
{
    if ss.len() == 0 {
        0
    } else {
        (if ss[0].attr.status == st {
            1nat
        } else {
            0nat
        }) + spec_steps_count(ss.drop_first(), st)
    }
}

/// Splitting off the last step splits the count.
proof fn lemma_steps_count_push(ss: Seq<StepView>, x: StepView)
    ensures
        forall|st: StepStatus| #[trigger] spec_steps_count(ss.push(x), st) == spec_steps_count(
            ss,
            st,
        ) + (if x.attr.status == st {
            1nat
        } else {
            0nat
        }),
    decreases ss.len(),
{
    if ss.len() == 0 {
        assert(ss.push(x)[0] == x);
        assert(ss.push(x).drop_first() =~= Seq::<StepView>::empty());
        assert forall|st: StepStatus| #[trigger] spec_steps_count(ss.push(x), st)
            == spec_steps_count(ss, st) + (if x.attr.status == st {
            1nat
        } else {
            0nat
        }) by {
            assert(spec_steps_count(Seq::<StepView>::empty(), st) == 0);
            assert(spec_steps_count(ss, st) == 0);
        }
    } else {
        assert(ss.push(x)[0] == ss[0]);
        assert(ss.push(x).drop_first() =~= ss.drop_first().push(x));
        lemma_steps_count_push(ss.drop_first(), x);
        assert forall|st: StepStatus| #[trigger] spec_steps_count(ss.push(x), st)
            == spec_steps_count(ss, st) + (if x.attr.status == st {
            1nat
        } else {
            0nat
        }) by {
            assert(spec_steps_count(ss.push(x), st) == (if ss[0].attr.status == st {
                1nat
            } else {
                0nat
            }) + spec_steps_count(ss.drop_first().push(x), st));
        }
    }
}

/// Six zeros or fewer, enough to left-pad an iteration number.
pub open spec fn spec_zero_pad(k: nat) -> Seq<char>
    decreases k,
{
    if k == 0 {
        Seq::empty()
    } else {
        spec_zero_pad((k - 1) as nat).push('0')
    }
}

/// The folder name of an iteration: the number in decimal, left-padded with
/// zeros to six digits.
pub open spec fn spec_folder_name(number: u32) -> Seq<char> {
    let digits = spec_dec_str(number as nat);
    "iteration_"@ + (if digits.len() >= 6 {
        digits
    } else {
        spec_zero_pad((6 - digits.len()) as nat) + digits
    })
}

impl Iteration {
    /// Get the folder name for this iteration.
    pub fn folder_name(&self) -> (r: String)
        ensures
            r@ == spec_folder_name(self.number),
    {
        let digits = usize_to_string(self.number as usize);
        let dlen = digits.as_str().unicode_len();
        let mut s = String::from_str("iteration_");
        let ghost base = "iteration_"@;
        if dlen < 6 {
            let mut k: usize = 0;
            let pad = 6 - dlen;
            while k < pad
                invariant
                    0 <= k <= pad,
                    pad == 6 - dlen,
                    dlen == spec_dec_str(self.number as nat).len(),
                    dlen < 6,
                    s@ == base + spec_zero_pad(k as nat),
                decreases pad - k,
            {
                s.append("0");
                k = k + 1;
                proof {
                    reveal_strlit("0");
                    assert("0"@ =~= seq!['0']);
                    assert(s@ =~= base + spec_zero_pad(k as nat));
                }
            }
        }
        s.append(digits.as_str());
        proof {
            assert(s@ =~= spec_folder_name(self.number));
        }
        s
    }

    /// Find a step by id.
    pub fn find_step(&self, id: &str) -> (r: Option<&Step>)
        ensures
            match r {
                Some(s) => exists|i: int|
                    0 <= i < self@.steps.len() && #[trigger] self@.steps[i] == s@
                        && s@.attr.id == id@,
                None => forall|i: int| 0 <= i < self@.steps.len() ==> #[trigger] self@.steps[i].attr.id
                    != id@,
            },
    {
        let n = self.steps.len();
        let mut i: usize = 0;
        while i < n
            invariant
                0 <= i <= n,
                n == self.steps@.len(),
                forall|j: int| 0 <= j < i ==> #[trigger] self@.steps[j].attr.id != id@,
            decreases n - i,
        {
            if str_eq(self.steps[i].attr.id.as_str(), id) {
                proof {
                    assert(self@.steps[i as int] == self.steps@[i as int]@);
                }
                return Some(&self.steps[i]);
            }
            i = i + 1;
        }
        None
    }

    /// Check if all steps are complete.
    pub fn all_steps_complete(&self) -> (r: bool)
        ensures
            r == (forall|i: int|
                0 <= i < self@.steps.len() ==> #[trigger] self@.steps[i].attr.status
                    == StepStatus::Done),
    {
        let n = self.steps.len();
        let mut i: usize = 0;
        while i < n
            invariant
                0 <= i <= n,
                n == self.steps@.len(),
                forall|j: int| 0 <= j < i ==> #[trigger] self@.steps[j].attr.status
                    == StepStatus::Done,
            decreases n - i,
        {
            if !self.steps[i].status().is_complete() {
                proof {
                    assert(self@.steps[i as int].attr.status != StepStatus::Done);
                }
                return false;
            }
            i = i + 1;
        }
        true
    }

    /// Count steps by status.
    pub fn count_by_status(&self) -> (r: StatusCounts)
        ensures
            r.wait == spec_steps_count(self@.steps, StepStatus::Wait),
            r.todo == spec_steps_count(self@.steps, StepStatus::Todo),
            r.in_progress == spec_steps_count(self@.steps, StepStatus::InProgress),
            r.done == spec_steps_count(self@.steps, StepStatus::Done),
    {
        let ghost sv = self@.steps;
        let mut counts = StatusCounts::default();
        let n = self.steps.len();
        let mut i: usize = 0;
        proof {
            assert(sv.take(0) =~= Seq::<StepView>::empty());
        }
        while i < n
            invariant
                0 <= i <= n,
                n == self.steps@.len(),
                sv == self@.steps,
                sv.len() == n,
                counts.wait == spec_steps_count(sv.take(i as int), StepStatus::Wait),
                counts.todo == spec_steps_count(sv.take(i as int), StepStatus::Todo),
                counts.in_progress == spec_steps_count(sv.take(i as int), StepStatus::InProgress),
                counts.done == spec_steps_count(sv.take(i as int), StepStatus::Done),
                counts.wait + counts.todo + counts.in_progress + counts.done == i,
            decreases n - i,
        {
            proof {
                lemma_steps_count_push(sv.take(i as int), sv[i as int]);
                assert(sv.take(i as int).push(sv[i as int]) =~= sv.take(i as int + 1));
            }
            match self.steps[i].status() {
                StepStatus::Wait => {
                    counts.wait = counts.wait + 1;
                },
                StepStatus::Todo => {
                    counts.todo = counts.todo + 1;
                },
                StepStatus::InProgress => {
                    counts.in_progress = counts.in_progress + 1;
                },
                StepStatus::Done => {
                    counts.done = counts.done + 1;
                },
            }
            i = i + 1;
        }
        proof {
            assert(sv.take(n as int) =~= sv);
        }
        counts
    }

    /// Get the steps that are ready to start.
    pub fn ready_steps(&self) -> (r: Vec<&Step>)
        ensures
            r@.map_values(|s: &Step| s@) == self@.steps.filter(
                |v: StepView| v.attr.status == StepStatus::Todo,
            ),
    {
        filter_steps_by_status(&self.steps, StepStatus::Todo)
    }

    /// Get the steps that are currently in progress.
    pub fn active_steps(&self) -> (r: Vec<&Step>)
        ensures
            r@.map_values(|s: &Step| s@) == self@.steps.filter(
                |v: StepView| v.attr.status == StepStatus::InProgress,
            ),
    {
        filter_steps_by_status(&self.steps, StepStatus::InProgress)
    }

    /// Get the steps that are blocked.
    pub fn blocked_steps(&self) -> (r: Vec<&Step>)
        ensures
            r@.map_values(|s: &Step| s@) == self@.steps.filter(
                |v: StepView| v.attr.status == StepStatus::Wait,
            ),
    {
        filter_steps_by_status(&self.steps, StepStatus::Wait)
    }
}

/// The steps in one status, in order.
fn filter_steps_by_status<'a>(steps: &'a Vec<Step>, st: StepStatus) -> (r: Vec<&'a Step>)
    ensures
        r@.map_values(|s: &Step| s@) == steps@.map_values(|s: Step| s@).filter(
            |v: StepView| v.attr.status == st,
        ),
{
    let ghost sv = steps@.map_values(|s: Step| s@);
    let n = steps.len();
    let mut out: Vec<&'a Step> = Vec::new();
    let mut i: usize = 0;
    proof {
        assert(sv.take(0) =~= Seq::<StepView>::empty());
        assert(Seq::<StepView>::empty().filter(|v: StepView| v.attr.status == st)
            =~= Seq::<StepView>::empty());
        assert(out@.map_values(|s: &Step| s@) =~= Seq::<StepView>::empty());
    }
    while i < n
        invariant
            0 <= i <= n,
            n == steps@.len(),
            sv == steps@.map_values(|s: Step| s@),
            sv.len() == n,
            out@.map_values(|s: &Step| s@) == sv.take(i as int).filter(
                |v: StepView| v.attr.status == st,
            ),
        decreases n - i,
    {
        proof {
            assert(sv.take(i as int).push(sv[i as int]) =~= sv.take(i as int + 1));
        }
        let ghost pre = out@.map_values(|s: &Step| s@);
        if status_matches(&steps[i], st) {
            out.push(&steps[i]);
            proof {
                assert(out@.map_values(|s: &Step| s@) =~= pre.push(sv[i as int]));
            }
        }
        i = i + 1;
        proof {
            lemma_filter_take_step(sv, i as int, st);
            assert(out@.map_values(|s: &Step| s@) =~= sv.take(i as int).filter(
                |v: StepView| v.attr.status == st,
            ));
        }
    }
    proof {
        assert(sv.take(n as int) =~= sv);
    }
    out
}

/// Whether a step's status equals the given one.
fn status_matches(s: &Step, st: StepStatus) -> (r: bool)
    ensures
        r == (s@.attr.status == st),
{
    match (s.attr.status, st) {
        (StepStatus::Wait, StepStatus::Wait) => true,
        (StepStatus::Todo, StepStatus::Todo) => true,
        (StepStatus::InProgress, StepStatus::InProgress) => true,
        (StepStatus::Done, StepStatus::Done) => true,
        _ => false,
    }
}

/// Filtering one more element keeps it exactly when it matches.
proof fn lemma_filter_take_step(sv: Seq<StepView>, i: int, st: StepStatus)
    requires
        1 <= i <= sv.len(),
    ensures
        sv.take(i).filter(|v: StepView| v.attr.status == st) == (if sv[i - 1].attr.status == st {
            sv.take(i - 1).filter(|v: StepView| v.attr.status == st).push(sv[i - 1])
        } else {
            sv.take(i - 1).filter(|v: StepView| v.attr.status == st)
        }),
{
    let pred = |v: StepView| v.attr.status == st;
    reveal(Seq::filter);
    assert(sv.take(i) =~= sv.take(i - 1) + seq![sv[i - 1]]);
    assert(seq![sv[i - 1]].drop_last() =~= Seq::<StepView>::empty());
    assert(Seq::<StepView>::empty().filter(pred) == Seq::<StepView>::empty());
    Seq::<StepView>::filter_distributes_over_add(sv.take(i - 1), seq![sv[i - 1]], pred);
    assert(seq![sv[i - 1]].drop_last() =~= Seq::<StepView>::empty());
    if pred(sv[i - 1]) {
        assert(seq![sv[i - 1]].filter(pred) =~= seq![sv[i - 1]]);
        assert(sv.take(i - 1).filter(pred) + seq![sv[i - 1]] =~= sv.take(i - 1).filter(
            pred,
        ).push(sv[i - 1]));
    } else {
        assert(seq![sv[i - 1]].filter(pred) =~= Seq::<StepView>::empty());
        assert(sv.take(i - 1).filter(pred) + Seq::<StepView>::empty() =~= sv.take(i - 1).filter(
            pred,
        ));
    }
}

impl Process {
    /// Create a new process from a definition.
    pub fn from_definition(def: &ProcessDefinition, parent_fqid: Option<&str>) -> (r: Self)
        ensures
            r.step@.attr.id == def@.id,
            r.step@.attr.status == StepStatus::Wait,
            r.current_iteration == 0,
            r.iterations@.len() == 0,
    {
        Process {
            step: Step::from_definition(def, parent_fqid),
            current_iteration: 0,
            iterations: Vec::new(),
        }
    }

    /// Get the FQID.
    pub fn fqid(&self) -> (r: &str)
        ensures
            r@ == spec_step_fqid(self.step@),
    {
        self.step.fqid()
    }

    /// Get the current status.
    pub fn status(&self) -> (r: StepStatus)
        ensures
            r == self.step@.attr.status,
    {
        self.step.status()
    }

    /// Check if this process has started.
    pub fn has_started(&self) -> (r: bool)
        ensures
            r == (self.current_iteration > 0),
    {
        self.current_iteration > 0
    }

    /// Get the current iteration, if any.
    pub fn current_iteration_data(&self) -> (r: Option<&Iteration>)
        ensures
            match r {
                Some(it) => self.current_iteration > 0 && self.current_iteration - 1
                    < self.iterations@.len() && it@ == self.iterations@[self.current_iteration
                    - 1]@,
                None => self.current_iteration == 0 || self.current_iteration - 1
                    >= self.iterations@.len(),
            },
    {
        if self.current_iteration == 0 {
            None
        } else {
            let idx = (self.current_iteration - 1) as usize;
            if idx < self.iterations.len() {
                Some(&self.iterations[idx])
            } else {
                None
            }
        }
    }

    /// Start a new iteration: the iteration counter moves up and an empty,
    /// open iteration is appended.
    pub fn start_new_iteration(&mut self)
        requires
            old(self).current_iteration < u32::MAX,
        ensures
            final(self).current_iteration == old(self).current_iteration + 1,
            final(self).iterations@.len() == old(self).iterations@.len() + 1,
            final(self).iterations@.last().number == final(self).current_iteration,
            final(self).iterations@.last()@.steps.len() == 0,
            final(self).iterations@.last().summary is None,
            !final(self).iterations@.last().is_complete,
            forall|i: int| 0 <= i < old(self).iterations@.len() ==> final(self).iterations@[i]
                == old(self).iterations@[i],
            final(self).step == old(self).step,
    {
        self.current_iteration = self.current_iteration + 1;
        let iteration = Iteration {
            number: self.current_iteration,
            steps: Vec::new(),
            summary: None,
            is_complete: false,
        };
        self.iterations.push(iteration);
        proof {
            assert(self.iterations@.last()@.steps =~= Seq::<StepView>::empty());
        }
    }
}

} // verus!
