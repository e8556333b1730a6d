//! State management: transition checks and tracking of active steps.

use vstd::prelude::*;
use vstd::string::StringExecFns;

use crate::error::{GlowError, GlowErrorView};
use crate::status::{spec_can_transition, StepStatus};
use crate::strutil::{lemma_views_push, seq_views, vec_contains_string};

verus! {

broadcast use vstd::seq_lib::lemma_seq_contains_after_push;

/// State manager for step transitions.
#[derive(Debug)]
pub struct StateManager {
    /// FQIDs of the steps recorded as active, in recording order.
    active_steps: Vec<String>,
}

impl View for StateManager {
    type V = Seq<Seq<char>>;

    closed spec fn view(&self) -> Seq<Seq<char>> {
        seq_views(self.active_steps@)
    }
}

impl StateManager {
    /// Create a new state manager tracking nothing.
    pub fn new() -> (r: Self)
        ensures
            r@ == Seq::<Seq<char>>::empty(),
    {
        let r = StateManager { active_steps: Vec::new() };
        proof {
            assert(r@ =~= Seq::<Seq<char>>::empty());
        }
        r
    }

    /// Validate a state transition: exactly the legal moves of the step
    /// state machine pass.
    pub fn validate_transition(&self, from: StepStatus, to: StepStatus) -> (r: Result<
        (),
        GlowError,
    >)
        ensures
            r is Ok <==> spec_can_transition(from, to),
            match r {
                Ok(_) => true,
                Err(e) => e@ == (GlowErrorView::InvalidStateTransition {
                    step_id: Seq::<char>::empty(),
                    current: from.spec_label(),
                    target: to.spec_label(),
                }),
            },
    {
        if from.can_transition_to(to) {
            Ok(())
        } else {
            let r = GlowError::InvalidStateTransition {
                step_id: String::new(),
                current: String::from_str(from.as_str()),
                target: String::from_str(to.as_str()),
            };
            Err(r)
        }
    }

    /// Record a step becoming active; recording twice changes nothing.
    pub fn mark_active(&mut self, fqid: &str)
        ensures
            old(self)@.contains(fqid@) ==> final(self)@ == old(self)@,
            !old(self)@.contains(fqid@) ==> final(self)@ == old(self)@.push(fqid@),
    {
        if !vec_contains_string(&self.active_steps, fqid) {
            let ghost prev = self.active_steps@;
            self.active_steps.push(String::from_str(fqid));
            proof {
                lemma_views_push(prev, self.active_steps@.last());
            }
        }
    }

    /// Record a step becoming inactive: every record of it goes away and
    /// nothing else changes.
    pub fn mark_inactive(&mut self, fqid: &str)
        ensures
            forall|y: Seq<char>| #[trigger] final(self)@.contains(y) <==> (old(self)@.contains(y)
                && y != fqid@),
    {
        let n = self.active_steps.len();
        let mut kept: Vec<String> = Vec::new();
        let mut i: usize = 0;
        while i < n
            invariant
                0 <= i <= n,
                n == self.active_steps@.len(),
                forall|j: int| 0 <= j < kept@.len() ==> #[trigger] seq_views(kept@)[j] != fqid@,
                forall|j: int| 0 <= j < kept@.len() ==> seq_views(self.active_steps@).contains(
                    #[trigger] seq_views(kept@)[j],
                ),
                forall|y: Seq<char>|
                    (exists|j: int|
                        0 <= j < i && #[trigger] seq_views(self.active_steps@)[j] == y) && y
                        != fqid@ ==> seq_views(kept@).contains(y),
            decreases n - i,
        {
            let ghost cur = seq_views(self.active_steps@)[i as int];
            if !crate::strutil::str_eq(self.active_steps[i].as_str(), fqid) {
                let ghost prev = kept@;
                kept.push(self.active_steps[i].clone());
                proof {
                    lemma_views_push(prev, kept@.last());
                    assert(seq_views(kept@).last() == cur);
                    assert(seq_views(kept@).contains(cur));
                }
            } else {
                proof {
                    assert(cur == fqid@);
                }
            }
            i = i + 1;
            proof {
                assert forall|y: Seq<char>|
                    (exists|j: int|
                        0 <= j < i && #[trigger] seq_views(self.active_steps@)[j] == y) && y
                        != fqid@ implies seq_views(kept@).contains(y) by {
                    let j = choose|j: int|
                        0 <= j < i && seq_views(self.active_steps@)[j] == y;
                    if j == i - 1 {
                        assert(y == cur);
                    }
                }
            }
        }
        self.active_steps = kept;
        proof {
            assert forall|y: Seq<char>| #[trigger] final(self)@.contains(y) implies (old(
                self,
            )@.contains(y) && y != fqid@) by {
                let j = choose|j: int| 0 <= j < final(self)@.len() && final(self)@[j] == y;
            }
            assert forall|y: Seq<char>| old(self)@.contains(y) && y != fqid@ implies #[trigger]
                final(self)@.contains(y) by {
                let j = choose|j: int| 0 <= j < old(self)@.len() && old(self)@[j] == y;
            }
        }
    }

    /// Get the FQIDs of all active steps.
    pub fn active_steps(&self) -> (r: &Vec<String>)
        ensures
            seq_views(r@) == self@,
    {
        &self.active_steps
    }

    /// Check if a step is active.
    pub fn is_active(&self, fqid: &str) -> (r: bool)
        ensures
            r == self@.contains(fqid@),
    {
        vec_contains_string(&self.active_steps, fqid)
    }
}

} // verus!
