//! The step lifecycle state machine.
//!
//! A step is in one of four states: `Wait` (blocked on unmet preconditions),
//! `Todo` (eligible to start), `InProgress` (active) and `Done` (terminal).
//! The legal transitions are `Wait -> Todo`, `Todo -> InProgress`,
//! `InProgress -> Done` and the explicit rollback `InProgress -> Todo`.

use vstd::prelude::*;

use crate::strutil::str_eq;

verus! {

broadcast use vstd::string::group_string_axioms;

/// Step status in the workflow.
#[derive(Debug, Clone, Copy, PartialEq, Eq, Hash, Structural)]
pub enum StepStatus {
    /// Waiting for dependencies to complete.
    Wait,
    /// Ready to start (all dependencies done).
    Todo,
    /// Currently being worked on.
    InProgress,
    /// Completed successfully.
    Done,
}

/// The legal transitions of the step state machine.
pub open spec fn spec_can_transition(from: StepStatus, to: StepStatus) -> bool {
    ||| (from == StepStatus::Wait && to == StepStatus::Todo)
    ||| (from == StepStatus::Todo && to == StepStatus::InProgress)
    ||| (from == StepStatus::InProgress && to == StepStatus::Done)
    ||| (from == StepStatus::InProgress && to == StepStatus::Todo)
}

impl StepStatus {
    /// Check if a transition to the target status is valid.
    pub fn can_transition_to(&self, target: StepStatus) -> (r: bool)
        ensures
            r == spec_can_transition(*self, target),
    {
        match (self, target) {
            (StepStatus::Wait, StepStatus::Todo) => true,
            (StepStatus::Todo, StepStatus::InProgress) => true,
            (StepStatus::InProgress, StepStatus::Done) => true,
            // Rollback is the only backward transition.
            (StepStatus::InProgress, StepStatus::Todo) => true,
            _ => false,
        }
    }

    /// Get all valid transitions from this status.
    pub fn valid_transitions(&self) -> (r: Vec<StepStatus>)
        ensures
            forall|t: StepStatus| r@.contains(t) <==> spec_can_transition(*self, t),
    {
        let r: Vec<StepStatus> = match self {
            StepStatus::Wait => vec![StepStatus::Todo],
            StepStatus::Todo => vec![StepStatus::InProgress],
            StepStatus::InProgress => vec![StepStatus::Done, StepStatus::Todo],
            StepStatus::Done => vec![],
        };
        proof {
            assert forall|t: StepStatus| r@.contains(t) <==> spec_can_transition(*self, t) by {
                if spec_can_transition(*self, t) {
                    match *self {
                        StepStatus::Wait => {
                            assert(r@[0] == StepStatus::Todo);
                        },
                        StepStatus::Todo => {
                            assert(r@[0] == StepStatus::InProgress);
                        },
                        StepStatus::InProgress => {
                            assert(r@[0] == StepStatus::Done);
                            assert(r@[1] == StepStatus::Todo);
                        },
                        StepStatus::Done => {},
                    }
                }
            }
        }
        r
    }

    /// Check if this status represents a completed state.
    pub fn is_complete(&self) -> (r: bool)
        ensures
            r == (*self == StepStatus::Done),
    {
        matches!(self, StepStatus::Done)
    }

    /// Check if this status represents an active state.
    pub fn is_active(&self) -> (r: bool)
        ensures
            r == (*self == StepStatus::InProgress),
    {
        matches!(self, StepStatus::InProgress)
    }

    /// Check if this status represents a blocked state.
    pub fn is_blocked(&self) -> (r: bool)
        ensures
            r == (*self == StepStatus::Wait),
    {
        matches!(self, StepStatus::Wait)
    }

    /// The display label of this status.
    pub open spec fn spec_label(self) -> Seq<char> {
        match self {
            StepStatus::Wait => "wait"@,
            StepStatus::Todo => "todo"@,
            StepStatus::InProgress => "in-progress"@,
            StepStatus::Done => "done"@,
        }
    }

    /// Render this status as its display label.
    pub fn as_str(&self) -> (r: &'static str)
        ensures
            r@ == self.spec_label(),
    {
        match self {
            StepStatus::Wait => "wait",
            StepStatus::Todo => "todo",
            StepStatus::InProgress => "in-progress",
            StepStatus::Done => "done",
        }
    }

    /// Parse a status from its display label. The active state is accepted
    /// in its hyphenated, joined and underscore spellings.
    pub fn parse(s: &str) -> (r: Option<StepStatus>)
        ensures
            r == Some(StepStatus::Wait) <==> s@ == "wait"@,
            r == Some(StepStatus::Todo) <==> s@ == "todo"@,
            r == Some(StepStatus::Done) <==> s@ == "done"@,
            r == Some(StepStatus::InProgress) <==> (s@ == "in-progress"@ || s@ == "inprogress"@
                || s@ == "in_progress"@),
            r is None <==> !(s@ == "wait"@ || s@ == "todo"@ || s@ == "done"@ || s@
                == "in-progress"@ || s@ == "inprogress"@ || s@ == "in_progress"@),
    {
        proof {
            reveal_strlit("wait");
            reveal_strlit("todo");
            reveal_strlit("done");
            reveal_strlit("in-progress");
            reveal_strlit("inprogress");
            reveal_strlit("in_progress");
            // Each pair of labels differs in its first character, its third
            // character or its length.
            assert("wait"@[0] == 'w');
            assert("todo"@[0] == 't');
            assert("done"@[0] == 'd');
            assert("in-progress"@[0] == 'i');
            assert("in-progress"@[2] == '-');
            assert("in-progress"@.len() == 11);
            assert("inprogress"@[0] == 'i');
            assert("inprogress"@.len() == 10);
            assert("in_progress"@[0] == 'i');
            assert("in_progress"@[2] == '_');
            assert("in_progress"@.len() == 11);
        }
        if str_eq(s, "wait") {
            Some(StepStatus::Wait)
        } else if str_eq(s, "todo") {
            Some(StepStatus::Todo)
        } else if str_eq(s, "in-progress") || str_eq(s, "inprogress") || str_eq(s, "in_progress") {
            Some(StepStatus::InProgress)
        } else if str_eq(s, "done") {
            Some(StepStatus::Done)
        } else {
            None
        }
    }
}

impl Default for StepStatus {
    /// A newly created step starts out waiting.
    fn default() -> (r: Self)
        ensures
            r == StepStatus::Wait,
    {
        StepStatus::Wait
    }
}

} // verus!
