//! Error types of the process engine.
//!
//! The error taxonomy is part of the public contract: callers surface each
//! kind verbatim, and the category decides the process exit code.

use vstd::prelude::*;

use crate::strutil::seq_views;

verus! {

/// Errors raised by the engine and its collaborators.
#[derive(Debug)]
pub enum GlowError {
    /// Configuration is unusable.
    ConfigError { message: String },
    /// A validation request itself failed.
    ValidationError { message: String },
    /// An illegal status change was attempted.
    InvalidStateTransition { step_id: String, current: String, target: String },
    /// A step may not start while blocking links are unmet.
    BlockedByDependencies { step_id: String, dependencies: Vec<String> },
    /// A new iteration may not start while the current one is open.
    IterationNotComplete { step_id: String },
    /// The FQID has no definition.
    StepNotFound { fqid: String },
    /// A parameter is not declared by the step.
    ParameterNotFound { step_id: String, param_id: String },
    /// A link points at a step id that does not exist.
    LinkTargetNotFound { step_id: String, target_id: String },
    /// A required parameter has no value.
    MissingRequiredParameter { param_id: String },
    /// A required output has no value.
    MissingRequiredOutput { param_id: String },
    /// The links under one parent form a cycle.
    CircularDependency { cycle: Vec<String> },
    /// No project has been initialized.
    ProjectNotInitialized,
    /// A context quality problem.
    QualityError { message: String },
}

/// The mathematical model of an engine error.
pub enum GlowErrorView {
    ConfigError { message: Seq<char> },
    ValidationError { message: Seq<char> },
    InvalidStateTransition { step_id: Seq<char>, current: Seq<char>, target: Seq<char> },
    BlockedByDependencies { step_id: Seq<char>, dependencies: Seq<Seq<char>> },
    IterationNotComplete { step_id: Seq<char> },
    StepNotFound { fqid: Seq<char> },
    ParameterNotFound { step_id: Seq<char>, param_id: Seq<char> },
    LinkTargetNotFound { step_id: Seq<char>, target_id: Seq<char> },
    MissingRequiredParameter { param_id: Seq<char> },
    MissingRequiredOutput { param_id: Seq<char> },
    CircularDependency { cycle: Seq<Seq<char>> },
    ProjectNotInitialized,
    QualityError { message: Seq<char> },
}

impl View for GlowError {
    type V = GlowErrorView;

    open spec fn view(&self) -> GlowErrorView {
        match self {
            GlowError::ConfigError { message } => GlowErrorView::ConfigError {
                message: message@,
            },
            GlowError::ValidationError { message } => GlowErrorView::ValidationError {
                message: message@,
            },
            GlowError::InvalidStateTransition {
                step_id,
                current,
                target,
            } => GlowErrorView::InvalidStateTransition {
                step_id: step_id@,
                current: current@,
                target: target@,
            },
            GlowError::BlockedByDependencies {
                step_id,
                dependencies,
            } => GlowErrorView::BlockedByDependencies {
                step_id: step_id@,
                dependencies: seq_views(dependencies@),
            },
            GlowError::IterationNotComplete { step_id } => GlowErrorView::IterationNotComplete {
                step_id: step_id@,
            },
            GlowError::StepNotFound { fqid } => GlowErrorView::StepNotFound { fqid: fqid@ },
            GlowError::ParameterNotFound { step_id, param_id } => GlowErrorView::ParameterNotFound {
                step_id: step_id@,
                param_id: param_id@,
            },
            GlowError::LinkTargetNotFound {
                step_id,
                target_id,
            } => GlowErrorView::LinkTargetNotFound {
                step_id: step_id@,
                target_id: target_id@,
            },
            GlowError::MissingRequiredParameter {
                param_id,
            } => GlowErrorView::MissingRequiredParameter { param_id: param_id@ },
            GlowError::MissingRequiredOutput { param_id } => GlowErrorView::MissingRequiredOutput {
                param_id: param_id@,
            },
            GlowError::CircularDependency { cycle } => GlowErrorView::CircularDependency {
                cycle: seq_views(cycle@),
            },
            GlowError::ProjectNotInitialized => GlowErrorView::ProjectNotInitialized,
            GlowError::QualityError { message } => GlowErrorView::QualityError {
                message: message@,
            },
        }
    }
}

/// Error categories for grouping errors into exit codes.
#[derive(Debug, Clone, Copy, PartialEq, Eq, Structural)]
pub enum ErrorCategory {
    Config,
    Validation,
    State,
    NotFound,
    Io,
    Parse,
    Process,
    Quality,
}

/// The category an error belongs to.
pub open spec fn spec_category(e: GlowErrorView) -> ErrorCategory {
    match e {
        GlowErrorView::ConfigError { .. } => ErrorCategory::Config,
        GlowErrorView::ValidationError { .. } => ErrorCategory::Validation,
        GlowErrorView::InvalidStateTransition { .. } => ErrorCategory::State,
        GlowErrorView::BlockedByDependencies { .. } => ErrorCategory::State,
        GlowErrorView::IterationNotComplete { .. } => ErrorCategory::State,
        GlowErrorView::StepNotFound { .. } => ErrorCategory::NotFound,
        GlowErrorView::ParameterNotFound { .. } => ErrorCategory::NotFound,
        GlowErrorView::LinkTargetNotFound { .. } => ErrorCategory::NotFound,
        GlowErrorView::MissingRequiredParameter { .. } => ErrorCategory::Process,
        GlowErrorView::MissingRequiredOutput { .. } => ErrorCategory::Process,
        GlowErrorView::CircularDependency { .. } => ErrorCategory::Process,
        GlowErrorView::ProjectNotInitialized => ErrorCategory::Process,
        GlowErrorView::QualityError { .. } => ErrorCategory::Quality,
    }
}

impl GlowError {
    /// Get the error category for exit codes.
    pub fn category(&self) -> (r: ErrorCategory)
        ensures
            r == spec_category(self@),
    {
        match self {
            GlowError::ConfigError { .. } => ErrorCategory::Config,
            GlowError::ValidationError { .. } => ErrorCategory::Validation,
            GlowError::InvalidStateTransition { .. } => ErrorCategory::State,
            GlowError::BlockedByDependencies { .. } => ErrorCategory::State,
            GlowError::IterationNotComplete { .. } => ErrorCategory::State,
            GlowError::StepNotFound { .. } => ErrorCategory::NotFound,
            GlowError::ParameterNotFound { .. } => ErrorCategory::NotFound,
            GlowError::LinkTargetNotFound { .. } => ErrorCategory::NotFound,
            GlowError::MissingRequiredParameter { .. } => ErrorCategory::Process,
            GlowError::MissingRequiredOutput { .. } => ErrorCategory::Process,
            GlowError::CircularDependency { .. } => ErrorCategory::Process,
            GlowError::ProjectNotInitialized => ErrorCategory::Process,
            GlowError::QualityError { .. } => ErrorCategory::Quality,
        }
    }

    /// Get the exit code for this error.
    pub fn exit_code(&self) -> (r: i32)
        ensures
            r == spec_category(self@).spec_exit_code(),
    {
        self.category().exit_code()
    }
}

impl ErrorCategory {
    /// The exit code of this category.
    pub open spec fn spec_exit_code(self) -> i32 {
        match self {
            ErrorCategory::Config => 1,
            ErrorCategory::Validation => 2,
            ErrorCategory::State => 3,
            ErrorCategory::NotFound => 4,
            ErrorCategory::Io => 5,
            ErrorCategory::Parse => 6,
            ErrorCategory::Process => 7,
            ErrorCategory::Quality => 8,
        }
    }

    /// Get the exit code for this category.
    pub fn exit_code(&self) -> (r: i32)
        ensures
            r == self.spec_exit_code(),
    {
        match self {
            ErrorCategory::Config => 1,
            ErrorCategory::Validation => 2,
            ErrorCategory::State => 3,
            ErrorCategory::NotFound => 4,
            ErrorCategory::Io => 5,
            ErrorCategory::Parse => 6,
            ErrorCategory::Process => 7,
            ErrorCategory::Quality => 8,
        }
    }

    /// The display name of this category.
    pub open spec fn spec_name(self) -> Seq<char> {
        match self {
            ErrorCategory::Config => "CONFIG_ERROR"@,
            ErrorCategory::Validation => "VALIDATION_ERROR"@,
            ErrorCategory::State => "STATE_ERROR"@,
            ErrorCategory::NotFound => "NOT_FOUND"@,
            ErrorCategory::Io => "IO_ERROR"@,
            ErrorCategory::Parse => "PARSE_ERROR"@,
            ErrorCategory::Process => "PROCESS_ERROR"@,
            ErrorCategory::Quality => "QUALITY_ERROR"@,
        }
    }

    /// Get the category name.
    pub fn name(&self) -> (r: &'static str)
        ensures
            r@ == self.spec_name(),
    {
        match self {
            ErrorCategory::Config => "CONFIG_ERROR",
            ErrorCategory::Validation => "VALIDATION_ERROR",
            ErrorCategory::State => "STATE_ERROR",
            ErrorCategory::NotFound => "NOT_FOUND",
            ErrorCategory::Io => "IO_ERROR",
            ErrorCategory::Parse => "PARSE_ERROR",
            ErrorCategory::Process => "PROCESS_ERROR",
            ErrorCategory::Quality => "QUALITY_ERROR",
        }
    }
}

impl Clone for GlowError {
    fn clone(&self) -> (r: Self)
        ensures
            r@ == self@,
    {
        match self {
            GlowError::ConfigError { message } => GlowError::ConfigError {
                message: message.clone(),
            },
            GlowError::ValidationError { message } => GlowError::ValidationError {
                message: message.clone(),
            },
            GlowError::InvalidStateTransition { step_id, current, target } => {
                GlowError::InvalidStateTransition {
                    step_id: step_id.clone(),
                    current: current.clone(),
                    target: target.clone(),
                }
            },
            GlowError::BlockedByDependencies { step_id, dependencies } => {
                let r = GlowError::BlockedByDependencies {
                    step_id: step_id.clone(),
                    dependencies: clone_strings(dependencies),
                };
                proof {
                    assert(r@->BlockedByDependencies_dependencies =~= seq_views(dependencies@));
                }
                r
            },
            GlowError::IterationNotComplete { step_id } => GlowError::IterationNotComplete {
                step_id: step_id.clone(),
            },
            GlowError::StepNotFound { fqid } => GlowError::StepNotFound { fqid: fqid.clone() },
            GlowError::ParameterNotFound { step_id, param_id } => GlowError::ParameterNotFound {
                step_id: step_id.clone(),
                param_id: param_id.clone(),
            },
            GlowError::LinkTargetNotFound { step_id, target_id } => GlowError::LinkTargetNotFound {
                step_id: step_id.clone(),
                target_id: target_id.clone(),
            },
            GlowError::MissingRequiredParameter { param_id } => {
                GlowError::MissingRequiredParameter { param_id: param_id.clone() }
            },
            GlowError::MissingRequiredOutput { param_id } => GlowError::MissingRequiredOutput {
                param_id: param_id.clone(),
            },
            GlowError::CircularDependency { cycle } => {
                let r = GlowError::CircularDependency { cycle: clone_strings(cycle) };
                proof {
                    assert(r@->CircularDependency_cycle =~= seq_views(cycle@));
                }
                r
            },
            GlowError::ProjectNotInitialized => GlowError::ProjectNotInitialized,
            GlowError::QualityError { message } => GlowError::QualityError {
                message: message.clone(),
            },
        }
    }
}

/// Clone a vector of strings.
pub fn clone_strings(v: &Vec<String>) -> (r: Vec<String>)
    ensures
        r@.len() == v@.len(),
        forall|i: int| 0 <= i < v@.len() ==> r@[i]@ == v@[i]@,
        seq_views(r@) == seq_views(v@),
{
    let n = v.len();
    let mut out: Vec<String> = Vec::new();
    let mut i: usize = 0;
    while i < n
        invariant
            0 <= i <= n,
            n == v@.len(),
            out@.len() == i,
            forall|j: int| 0 <= j < i ==> out@[j]@ == v@[j]@,
        decreases n - i,
    {
        out.push(v[i].clone());
        i = i + 1;
    }
    proof {
        assert(seq_views(out@) =~= seq_views(v@));
    }
    out
}

} // verus!
