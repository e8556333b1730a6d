//! Quality assessment: completeness, consistency and semantic connection of
//! the captured context.

use vstd::prelude::*;

use crate::engine::{spec_build_tree, spec_node_count, ProcessEngine};
use crate::error::GlowError;
use crate::validation::{
    spec_step_issues, spec_tree_issues, IssueType, ValidationIssue, ValidationReport,
};

verus! {

/// Quality assessment levels.
#[derive(Debug, Clone, Copy, PartialEq, Eq, Structural)]
pub enum QualityLevel {
    /// All required parameters filled.
    Complete,
    /// At least four fifths filled.
    Sufficient,
    /// Missing critical context.
    Insufficient,
}

/// The level a completeness percentage maps to.
pub open spec fn spec_level_of(percentage: int) -> QualityLevel {
    if percentage >= 100 {
        QualityLevel::Complete
    } else if percentage >= 80 {
        QualityLevel::Sufficient
    } else {
        QualityLevel::Insufficient
    }
}

impl QualityLevel {
    /// Determine the quality level from a completeness percentage.
    pub fn from_percentage(percentage: u64) -> (r: Self)
        ensures
            r == spec_level_of(percentage as int),
    {
        if percentage >= 100 {
            QualityLevel::Complete
        } else if percentage >= 80 {
            QualityLevel::Sufficient
        } else {
            QualityLevel::Insufficient
        }
    }

    /// The display label of this level.
    pub open spec fn spec_label(self) -> Seq<char> {
        match self {
            QualityLevel::Complete => "Complete"@,
            QualityLevel::Sufficient => "Sufficient"@,
            QualityLevel::Insufficient => "Insufficient"@,
        }
    }

    /// Render this level as its display label.
    pub fn as_str(&self) -> (r: &'static str)
        ensures
            r@ == self.spec_label(),
    {
        match self {
            QualityLevel::Complete => "Complete",
            QualityLevel::Sufficient => "Sufficient",
            QualityLevel::Insufficient => "Insufficient",
        }
    }
}

/// Quality report for a project.
#[derive(Debug)]
pub struct QualityReport {
    /// Overall quality level.
    pub level: QualityLevel,
    /// Completeness percentage.
    pub completeness: u64,
    /// Consistency status: no issues found.
    pub is_consistent: bool,
    /// Semantic connection status: no broken links found.
    pub has_semantic_connection: bool,
    /// Detailed validation report.
    pub validation: ValidationReport,
}

/// Assess the quality of a project, or of one step.
pub fn assess_quality(engine: &ProcessEngine, fqid: Option<&str>) -> (r: Result<
    QualityReport,
    GlowError,
>)
    requires
        spec_node_count(spec_build_tree(engine@.store, engine@.config.root_process, None))
            <= usize::MAX,
    ensures
        r matches Ok(q) && ({
            let issues = q.validation.issues@.map_values(|i: ValidationIssue| i@);
            &&& issues == (match fqid {
                Some(f) => spec_step_issues(engine@.config, engine@.store, f@),
                None => spec_tree_issues(
                    engine@.config,
                    engine@.store,
                    spec_build_tree(engine@.store, engine@.config.root_process, None),
                ),
            })
            &&& q.level == spec_level_of(q.completeness as int)
            &&& q.completeness == q.validation.completeness
            &&& (q.is_consistent <==> issues.len() == 0)
            &&& (q.has_semantic_connection <==> forall|i: int|
                0 <= i < issues.len() ==> #[trigger] issues[i].issue_type != IssueType::BrokenLink)
        }),
{
    let validator = crate::validation::Validator::new();
    let validation = match validator.validate_project(engine, fqid) {
        Ok(v) => v,
        Err(e) => {
            proof {
                assert(false);
            }
            return Err(e);
        },
    };
    let level = QualityLevel::from_percentage(validation.completeness);
    let is_consistent = validation.issues.len() == 0;
    // semantic connection holds while no link is broken
    let mut has_semantic_connection = true;
    let n = validation.issues.len();
    let mut i: usize = 0;
    let ghost iv = validation.issues@.map_values(|x: ValidationIssue| x@);
    while i < n
        invariant
            0 <= i <= n,
            n == validation.issues@.len(),
            iv == validation.issues@.map_values(|x: ValidationIssue| x@),
            has_semantic_connection <==> forall|j: int|
                0 <= j < i ==> #[trigger] iv[j].issue_type != IssueType::BrokenLink,
        decreases n - i,
    {
        if matches!(validation.issues[i].issue_type, IssueType::BrokenLink) {
            proof {
                assert(iv[i as int].issue_type == IssueType::BrokenLink);
            }
            has_semantic_connection = false;
        }
        i = i + 1;
    }
    let completeness = validation.completeness;
    Ok(QualityReport { level, completeness, is_consistent, has_semantic_connection, validation })
}

} // verus!
