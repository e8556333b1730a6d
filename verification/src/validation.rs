//! Context quality validation.
//!
//! The validator walks the status tree, or a single step, and collects
//! issues: missing required inputs of started steps, missing required
//! outputs of done steps, links whose targets are not siblings, and link
//! sets that form cycles. Validation never raises: it reports.

use vstd::prelude::*;
use vstd::string::StringExecFns;

use crate::config::{spec_find_def, ProcessConfigView};
use crate::engine::{
    spec_build_tree, spec_count_status, spec_has_valued, spec_node_count, ProcessEngine,
    StatusTree, TreeView,
};
use crate::error::GlowError;
use crate::graph::{spec_has_cycle, LinkGraph};
use crate::link::{LinkDefView, LinkDefinition};
use crate::parameter::{spec_ref_required, ParameterRef, ParameterRefView, ParameterValue};
use crate::status::StepStatus;
use crate::step::{spec_has_sub, DefView, StepView};
use crate::store::{spec_has_step, spec_step_at};
use crate::strutil::{lemma_views_push, seq_views, spec_dec_str, usize_to_string};

verus! {

broadcast use vstd::seq_lib::group_seq_lib_default;

/// Kinds of validation issues.
#[derive(Debug, Clone, Copy, PartialEq, Eq, Structural)]
pub enum IssueType {
    MissingParameter,
    BrokenLink,
    InconsistentState,
    CircularDependency,
}

/// A single validation finding.
#[derive(Debug)]
pub struct ValidationIssue {
    pub fqid: String,
    pub issue_type: IssueType,
    pub message: String,
}

/// The mathematical model of a validation finding.
pub struct IssueView {
    pub fqid: Seq<char>,
    pub issue_type: IssueType,
    pub message: Seq<char>,
}

impl View for ValidationIssue {
    type V = IssueView;

    open spec fn view(&self) -> IssueView {
        IssueView { fqid: self.fqid@, issue_type: self.issue_type, message: self.message@ }
    }
}

/// A validation report: collected issues and warnings, the progress-based
/// completeness percentage, and overall validity.
#[derive(Debug)]
pub struct ValidationReport {
    pub is_valid: bool,
    pub completeness: u64,
    pub issues: Vec<ValidationIssue>,
    pub warnings: Vec<String>,
}

/// Validation rules the validator applies.
#[derive(Debug, Clone, Copy, PartialEq, Eq, Structural)]
pub enum ValidationRule {
    RequiredParameters,
    LinkValidity,
    CircularDependency,
    StateConsistency,
}

/// Context quality validator.
#[derive(Debug)]
pub struct Validator {
    /// Validation rules.
    pub rules: Vec<ValidationRule>,
}

/// The missing-value issues of one parameter list: one issue per required
/// reference without a valued parameter, in declaration order.
pub open spec fn spec_missing_issues(
    refs: Seq<ParameterRefView>,
    vals: Seq<crate::parameter::ParameterValueView>,
    f: Seq<char>,
    label: Seq<char>,
) -> Seq<IssueView>
    decreases refs.len(),
{
    if refs.len() == 0 {
        Seq::empty()
    } else {
        let tail = spec_missing_issues(refs.drop_first(), vals, f, label);
        if spec_ref_required(refs[0]) && !spec_has_valued(vals, refs[0].id) {
            seq![
                IssueView {
                    fqid: f,
                    issue_type: IssueType::MissingParameter,
                    message: label + refs[0].id,
                },
            ] + tail
        } else {
            tail
        }
    }
}

/// All edges of the declared links, blocking or not, in declaration order.
pub open spec fn spec_all_edges(links: Seq<LinkDefView>) -> Seq<crate::graph::EdgeView> {
    links.map_values(|l: LinkDefView| (l.from, l.to))
}

/// The broken-link issues of one definition: one issue per link whose
/// target names no sibling, in declaration order.
pub open spec fn spec_broken_link_issues(
    links: Seq<LinkDefView>,
    steps: Seq<DefView>,
    f: Seq<char>,
) -> Seq<IssueView>
    decreases links.len(),
{
    if links.len() == 0 {
        Seq::empty()
    } else {
        let tail = spec_broken_link_issues(links.drop_first(), steps, f);
        if !spec_has_sub(steps, links[0].to) {
            seq![
                IssueView {
                    fqid: f,
                    issue_type: IssueType::BrokenLink,
                    message: "Link target not found: "@ + links[0].to,
                },
            ] + tail
        } else {
            tail
        }
    }
}

/// The issues of one step: a missing record, a missing definition, missing
/// required inputs of a started step, missing required outputs of a done
/// step, a cycle among the declared links, and dangling link targets.
pub open spec fn spec_step_issues(
    cfg: ProcessConfigView,
    store: Seq<StepView>,
    f: Seq<char>,
) -> Seq<IssueView> {
    if !spec_has_step(store, f) {
        seq![
            IssueView {
                fqid: f,
                issue_type: IssueType::InconsistentState,
                message: "Step file not found"@,
            },
        ]
    } else {
        match spec_find_def(cfg, f) {
            None => seq![
                IssueView {
                    fqid: f,
                    issue_type: IssueType::BrokenLink,
                    message: "Step definition not found in process config"@,
                },
            ],
            Some(d) => {
                let s = spec_step_at(store, f);
                let started = s.attr.status == StepStatus::InProgress || s.attr.status
                    == StepStatus::Done;
                let inputs = if started {
                    spec_missing_issues(d.inputs, s.input, f, "Missing required input: "@)
                } else {
                    Seq::empty()
                };
                let outputs = if s.attr.status == StepStatus::Done {
                    spec_missing_issues(d.outputs, s.output, f, "Missing required output: "@)
                } else {
                    Seq::empty()
                };
                let cycles = if d.links.len() > 0 && spec_has_cycle(spec_all_edges(d.links)) {
                    seq![
                        IssueView {
                            fqid: f,
                            issue_type: IssueType::CircularDependency,
                            message: "Circular dependency detected"@,
                        },
                    ]
                } else {
                    Seq::empty()
                };
                inputs + outputs + cycles + spec_broken_link_issues(d.links, d.steps, f)
            },
        }
    }
}

/// The warning a waiting process node yields: its children exist but no
/// iteration has started.
pub open spec fn spec_wait_warning(t: TreeView) -> Seq<char> {
    t.fqid + ": "@ + spec_dec_str(t.children.len()) + " steps waiting, no iteration started"@
}

/// The issues of a whole status tree, in pre-order.
pub open spec fn spec_tree_issues(
    cfg: ProcessConfigView,
    store: Seq<StepView>,
    t: TreeView,
) -> Seq<IssueView>
    decreases t,
    via spec_tree_issues_decreases
{
    spec_step_issues(cfg, store, t.fqid) + spec_tree_issues_list(cfg, store, t.children)
}

#[via_fn]
proof fn spec_tree_issues_decreases(cfg: ProcessConfigView, store: Seq<StepView>, t: TreeView) {
    assert(decreases_to!(t => t.children));
}

/// The issues of a list of status trees.
pub open spec fn spec_tree_issues_list(
    cfg: ProcessConfigView,
    store: Seq<StepView>,
    ts: Seq<TreeView>,
) -> Seq<IssueView>
    decreases ts,
{
    if ts.len() == 0 {
        Seq::empty()
    } else {
        spec_tree_issues(cfg, store, ts[0]) + spec_tree_issues_list(cfg, store, ts.drop_first())
    }
}

/// The warnings of a whole status tree, in pre-order: one per waiting node
/// that owns children.
pub open spec fn spec_tree_warnings(t: TreeView) -> Seq<Seq<char>>
    decreases t,
    via spec_tree_warnings_decreases
{
    (if t.status == StepStatus::Wait && t.children.len() > 0 {
        seq![spec_wait_warning(t)]
    } else {
        Seq::empty()
    }) + spec_tree_warnings_list(t.children)
}

#[via_fn]
proof fn spec_tree_warnings_decreases(t: TreeView) {
    assert(decreases_to!(t => t.children));
}

/// The warnings of a list of status trees.
pub open spec fn spec_tree_warnings_list(ts: Seq<TreeView>) -> Seq<Seq<char>>
    decreases ts,
{
    if ts.len() == 0 {
        Seq::empty()
    } else {
        spec_tree_warnings(ts[0]) + spec_tree_warnings_list(ts.drop_first())
    }
}

/// Splitting off the last tree splits its issues and warnings off the list
/// forms.
proof fn lemma_tree_lists_push(
    cfg: ProcessConfigView,
    store: Seq<StepView>,
    ts: Seq<TreeView>,
    x: TreeView,
)
    ensures
        spec_tree_issues_list(cfg, store, ts.push(x)) == spec_tree_issues_list(cfg, store, ts)
            + spec_tree_issues(cfg, store, x),
        spec_tree_warnings_list(ts.push(x)) == spec_tree_warnings_list(ts)
            + spec_tree_warnings(x),
    decreases ts,
{
    if ts.len() == 0 {
        assert(ts.push(x)[0] == x);
        assert(ts.push(x).drop_first() =~= Seq::<TreeView>::empty());
        assert(spec_tree_issues_list(cfg, store, Seq::<TreeView>::empty())
            == Seq::<IssueView>::empty());
        assert(spec_tree_warnings_list(Seq::<TreeView>::empty()) == Seq::<Seq<char>>::empty());
        assert(spec_tree_issues_list(cfg, store, ts.push(x)) =~= spec_tree_issues_list(
            cfg,
            store,
            ts,
        ) + spec_tree_issues(cfg, store, x));
        assert(spec_tree_warnings_list(ts.push(x)) =~= spec_tree_warnings_list(ts)
            + spec_tree_warnings(x));
    } else {
        assert(ts.push(x)[0] == ts[0]);
        assert(ts.push(x).drop_first() =~= ts.drop_first().push(x));
        lemma_tree_lists_push(cfg, store, ts.drop_first(), x);
        assert(spec_tree_issues_list(cfg, store, ts.push(x)) =~= spec_tree_issues_list(
            cfg,
            store,
            ts,
        ) + spec_tree_issues(cfg, store, x));
        assert(spec_tree_warnings_list(ts.push(x)) =~= spec_tree_warnings_list(ts)
            + spec_tree_warnings(x));
    }
}

/// Collect the missing-value issues of one parameter list.
fn collect_missing(
    refs: &Vec<ParameterRef>,
    vals: &Vec<ParameterValue>,
    fqid: &str,
    label: &str,
    issues: &mut Vec<ValidationIssue>,
)
    ensures
        final(issues)@.map_values(|i: ValidationIssue| i@) == old(issues)@.map_values(
            |i: ValidationIssue| i@,
        ) + spec_missing_issues(
            refs@.map_values(|p: ParameterRef| p@),
            vals@.map_values(|p: ParameterValue| p@),
            fqid@,
            label@,
        ),
{
    let ghost rv = refs@.map_values(|p: ParameterRef| p@);
    let ghost vv = vals@.map_values(|p: ParameterValue| p@);
    let n = refs.len();
    let mut i: usize = 0;
    proof {
        assert(rv.skip(0) =~= rv);
    }
    while i < n
        invariant
            0 <= i <= n,
            n == refs@.len(),
            rv == refs@.map_values(|p: ParameterRef| p@),
            vv == vals@.map_values(|p: ParameterValue| p@),
            issues@.map_values(|x: ValidationIssue| x@) + spec_missing_issues(
                rv.skip(i as int),
                vv,
                fqid@,
                label@,
            ) == old(issues)@.map_values(|x: ValidationIssue| x@) + spec_missing_issues(
                rv,
                vv,
                fqid@,
                label@,
            ),
        decreases n - i,
    {
        proof {
            assert(rv.skip(i as int)[0] == rv[i as int]);
            assert(rv.skip(i as int).drop_first() =~= rv.skip(i as int + 1));
        }
        let required = match refs[i].is_required {
            Some(b) => b,
            None => false,
        };
        if required {
            if !crate::engine::has_valued_param(vals, refs[i].id.as_str()) {
                let ghost pre = issues@.map_values(|x: ValidationIssue| x@);
                let mut message = String::from_str(label);
                message.append(refs[i].id.as_str());
                issues.push(
                    ValidationIssue {
                        fqid: String::from_str(fqid),
                        issue_type: IssueType::MissingParameter,
                        message,
                    },
                );
                proof {
                    assert(issues@.map_values(|x: ValidationIssue| x@) =~= pre.push(
                        issues@.last()@,
                    ));
                    assert(pre.push(issues@.last()@) + spec_missing_issues(
                        rv.skip(i as int + 1),
                        vv,
                        fqid@,
                        label@,
                    ) =~= pre + spec_missing_issues(rv.skip(i as int), vv, fqid@, label@));
                }
            }
        }
        i = i + 1;
    }
    proof {
        assert(rv.skip(n as int) =~= Seq::<ParameterRefView>::empty());
        assert(spec_missing_issues(Seq::<ParameterRefView>::empty(), vv, fqid@, label@)
            =~= Seq::<IssueView>::empty());
    }
}

/// Collect the broken-link issues of one definition.
fn collect_broken_links(
    def: &crate::step::StepDefinition,
    fqid: &str,
    issues: &mut Vec<ValidationIssue>,
)
    ensures
        final(issues)@.map_values(|i: ValidationIssue| i@) == old(issues)@.map_values(
            |i: ValidationIssue| i@,
        ) + spec_broken_link_issues(
            def@.links,
            def@.steps,
            fqid@,
        ),
{
    let ghost lv = def@.links;
    let n = def.links.len();
    let mut i: usize = 0;
    proof {
        crate::step::lemma_def_views_index(def.steps@);
        assert(lv.skip(0) =~= lv);
    }
    while i < n
        invariant
            0 <= i <= n,
            n == def.links@.len(),
            lv == def@.links,
            lv.len() == def.links@.len(),
            forall|j: int| 0 <= j < lv.len() ==> #[trigger] def.links@[j]@ == lv[j],
            issues@.map_values(|x: ValidationIssue| x@) + spec_broken_link_issues(
                lv.skip(i as int),
                def@.steps,
                fqid@,
            ) == old(issues)@.map_values(|x: ValidationIssue| x@) + spec_broken_link_issues(
                lv,
                def@.steps,
                fqid@,
            ),
        decreases n - i,
    {
        proof {
            assert(lv.skip(i as int)[0] == lv[i as int]);
            assert(lv.skip(i as int).drop_first() =~= lv.skip(i as int + 1));
        }
        let target_exists = def.find_step(def.links[i].to.as_str()).is_some();
        proof {
            crate::step::lemma_find_sub_props(def@.steps, lv[i as int].to);
        }
        if !target_exists {
            let ghost pre = issues@.map_values(|x: ValidationIssue| x@);
            let mut message = String::from_str("Link target not found: ");
            message.append(def.links[i].to.as_str());
            issues.push(
                ValidationIssue {
                    fqid: String::from_str(fqid),
                    issue_type: IssueType::BrokenLink,
                    message,
                },
            );
            proof {
                assert(issues@.map_values(|x: ValidationIssue| x@) =~= pre.push(
                    issues@.last()@,
                ));
                assert(pre.push(issues@.last()@) + spec_broken_link_issues(
                    lv.skip(i as int + 1),
                    def@.steps,
                    fqid@,
                ) =~= pre + spec_broken_link_issues(lv.skip(i as int), def@.steps, fqid@));
            }
        }
        i = i + 1;
    }
    proof {
        assert(lv.skip(n as int) =~= Seq::<LinkDefView>::empty());
        assert(spec_broken_link_issues(Seq::<LinkDefView>::empty(), def@.steps, fqid@)
            =~= Seq::<IssueView>::empty());
    }
}

/// Validate one step: collect its issues into the report's issue list.
fn validate_step_into(engine: &ProcessEngine, fqid: &str, issues: &mut Vec<ValidationIssue>)
    ensures
        final(issues)@.map_values(|i: ValidationIssue| i@) == old(issues)@.map_values(
            |i: ValidationIssue| i@,
        ) + spec_step_issues(engine@.config, engine@.store, fqid@),
{
    let ghost pre = issues@.map_values(|x: ValidationIssue| x@);
    let step = match engine.show_step(fqid) {
        Ok(s) => s,
        Err(_) => {
            issues.push(
                ValidationIssue {
                    fqid: String::from_str(fqid),
                    issue_type: IssueType::InconsistentState,
                    message: String::from_str("Step file not found"),
                },
            );
            proof {
                assert(issues@.map_values(|x: ValidationIssue| x@) =~= pre + spec_step_issues(
                    engine@.config,
                    engine@.store,
                    fqid@,
                ));
            }
            return ;
        },
    };
    let step_def = match engine.process_config().find_step_definition(fqid) {
        Some(d) => d,
        None => {
            issues.push(
                ValidationIssue {
                    fqid: String::from_str(fqid),
                    issue_type: IssueType::BrokenLink,
                    message: String::from_str("Step definition not found in process config"),
                },
            );
            proof {
                assert(issues@.map_values(|x: ValidationIssue| x@) =~= pre + spec_step_issues(
                    engine@.config,
                    engine@.store,
                    fqid@,
                ));
            }
            return ;
        },
    };
    let ghost d = spec_find_def(engine@.config, fqid@).unwrap();
    let started = matches!(step.status(), StepStatus::InProgress) || matches!(
        step.status(),
        StepStatus::Done,
    );
    // required inputs must be valued once work has started
    if started {
        collect_missing(
            &step_def.inputs,
            &step.input,
            fqid,
            "Missing required input: ",
            issues,
        );
    }
    // required outputs must be valued once work is done
    if matches!(step.status(), StepStatus::Done) {
        collect_missing(
            &step_def.outputs,
            &step.output,
            fqid,
            "Missing required output: ",
            issues,
        );
    }
    let ghost after_out = issues@.map_values(|x: ValidationIssue| x@);
    // the declared links may not form a cycle
    if step_def.links.len() > 0 {
        let graph = LinkGraph::from_links(&step_def.links);
        proof {
            assert(graph@ =~= spec_all_edges(d.links));
        }
        if graph.has_cycle() {
            issues.push(
                ValidationIssue {
                    fqid: String::from_str(fqid),
                    issue_type: IssueType::CircularDependency,
                    message: String::from_str("Circular dependency detected"),
                },
            );
            proof {
                assert(issues@.map_values(|x: ValidationIssue| x@) =~= after_out.push(
                    issues@.last()@,
                ));
            }
        }
    }
    // every link target must name a sibling
    collect_broken_links(step_def, fqid, issues);
    proof {
        let s = spec_step_at(engine@.store, fqid@);
        let started_spec = s.attr.status == StepStatus::InProgress || s.attr.status
            == StepStatus::Done;
        let inputs = if started_spec {
            spec_missing_issues(d.inputs, s.input, fqid@, "Missing required input: "@)
        } else {
            Seq::<IssueView>::empty()
        };
        let outputs = if s.attr.status == StepStatus::Done {
            spec_missing_issues(d.outputs, s.output, fqid@, "Missing required output: "@)
        } else {
            Seq::<IssueView>::empty()
        };
        let cycles = if d.links.len() > 0 && spec_has_cycle(spec_all_edges(d.links)) {
            seq![
                IssueView {
                    fqid: fqid@,
                    issue_type: IssueType::CircularDependency,
                    message: "Circular dependency detected"@,
                },
            ]
        } else {
            Seq::<IssueView>::empty()
        };
        assert(step@.input == s.input && step@.output == s.output);
        assert(after_out =~= pre + inputs + outputs);
        assert(issues@.map_values(|x: ValidationIssue| x@) =~= pre + (inputs + outputs + cycles
            + spec_broken_link_issues(d.links, d.steps, fqid@)));
    }
}

/// Validate a whole status tree, pre-order: collect the issues of every
/// node, and a warning for every waiting node that owns children.
fn validate_tree_into(
    engine: &ProcessEngine,
    tree: &StatusTree,
    issues: &mut Vec<ValidationIssue>,
    warnings: &mut Vec<String>,
)
    ensures
        final(issues)@.map_values(|i: ValidationIssue| i@) == old(issues)@.map_values(
            |i: ValidationIssue| i@,
        ) + spec_tree_issues(engine@.config, engine@.store, tree@),
        seq_views(final(warnings)@) == seq_views(old(warnings)@) + spec_tree_warnings(tree@),
    decreases *tree,
{
    proof {
        crate::engine::lemma_tree_views_index(tree.children@);
    }
    validate_step_into(engine, tree.fqid.as_str(), issues);
    if matches!(tree.status, StepStatus::Wait) && tree.children.len() > 0 {
        let ghost prew = seq_views(warnings@);
        let mut w = String::new();
        w.append(tree.fqid.as_str());
        w.append(": ");
        w.append(usize_to_string(tree.children.len()).as_str());
        w.append(" steps waiting, no iteration started");
        proof {
            assert(w@ =~= spec_wait_warning(tree@));
        }
        warnings.push(w);
        proof {
            lemma_views_push(warnings@.drop_last(), warnings@.last());
            assert(warnings@.drop_last().push(warnings@.last()) =~= warnings@);
            assert(seq_views(warnings@) =~= prew + seq![spec_wait_warning(tree@)]);
        }
    }
    let ghost base_i = issues@.map_values(|x: ValidationIssue| x@);
    let ghost base_w = seq_views(warnings@);
    let n = tree.children.len();
    let mut i: usize = 0;
    while i < n
        invariant
            0 <= i <= n,
            n == tree.children@.len(),
            forall|j: int| 0 <= j < tree.children@.len() ==> #[trigger] tree.children@[j]@
                == tree@.children[j],
            tree@.children.len() == tree.children@.len(),
            issues@.map_values(|x: ValidationIssue| x@) == base_i + spec_tree_issues_list(
                engine@.config,
                engine@.store,
                tree@.children.take(i as int),
            ),
            seq_views(warnings@) == base_w + spec_tree_warnings_list(
                tree@.children.take(i as int),
            ),
        decreases n - i,
    {
        proof {
            assert(decreases_to!(*tree => tree.children@[i as int]));
        }
        validate_tree_into(engine, &tree.children[i], issues, warnings);
        i = i + 1;
        proof {
            assert(tree@.children.take(i as int) =~= tree@.children.take(i as int - 1).push(
                tree@.children[i as int - 1],
            ));
            lemma_tree_lists_push(
                engine@.config,
                engine@.store,
                tree@.children.take(i as int - 1),
                tree@.children[i as int - 1],
            );
        }
    }
    proof {
        assert(tree@.children.take(n as int) =~= tree@.children);
        assert(base_i + spec_tree_issues_list(engine@.config, engine@.store, tree@.children)
            =~= old(issues)@.map_values(|x: ValidationIssue| x@) + spec_tree_issues(
            engine@.config,
            engine@.store,
            tree@,
        ));
        assert(base_w + spec_tree_warnings_list(tree@.children) =~= seq_views(old(warnings)@)
            + spec_tree_warnings(tree@));
    }
}

impl Validator {
    /// Create a new validator with the default rules.
    pub fn new() -> (r: Self)
        ensures
            r.rules@.len() == 4,
            r.rules@[0] == ValidationRule::RequiredParameters,
            r.rules@[1] == ValidationRule::LinkValidity,
            r.rules@[2] == ValidationRule::CircularDependency,
            r.rules@[3] == ValidationRule::StateConsistency,
    {
        let rules: Vec<ValidationRule> = vec![
            ValidationRule::RequiredParameters,
            ValidationRule::LinkValidity,
            ValidationRule::CircularDependency,
            ValidationRule::StateConsistency,
        ];
        Validator { rules }
    }

    /// Validate the entire project or a specific step: collect the issues
    /// and warnings, compute the completeness percentage from progress, and
    /// judge the report valid exactly when no issue was found.
    pub fn validate_project(&self, engine: &ProcessEngine, fqid: Option<&str>) -> (r: Result<
        ValidationReport,
        GlowError,
    >)
        requires
            spec_node_count(
                spec_build_tree(engine@.store, engine@.config.root_process, None),
            ) <= usize::MAX,
        ensures
            ({
                let t = spec_build_tree(engine@.store, engine@.config.root_process, None);
                r matches Ok(rep) && {
                    &&& rep.issues@.map_values(|i: ValidationIssue| i@) == (match fqid {
                        Some(f) => spec_step_issues(engine@.config, engine@.store, f@),
                        None => spec_tree_issues(engine@.config, engine@.store, t),
                    })
                    &&& seq_views(rep.warnings@) == (match fqid {
                        Some(f) => Seq::<Seq<char>>::empty(),
                        None => spec_tree_warnings(t),
                    })
                    &&& rep.is_valid <==> rep.issues@.len() == 0
                    &&& rep.completeness == (if spec_node_count(t) == 0 {
                        0int
                    } else {
                        spec_count_status(t, StepStatus::Done) as int * 100int / spec_node_count(
                            t,
                        ) as int
                    })
                }
            }),
    {
        let mut issues: Vec<ValidationIssue> = Vec::new();
        let mut warnings: Vec<String> = Vec::new();
        proof {
            assert(issues@.map_values(|x: ValidationIssue| x@) =~= Seq::<IssueView>::empty());
            assert(seq_views(warnings@) =~= Seq::<Seq<char>>::empty());
        }
        match fqid {
            Some(target) => {
                validate_step_into(engine, target, &mut issues);
                proof {
                    assert(issues@.map_values(|x: ValidationIssue| x@)
                        =~= spec_step_issues(engine@.config, engine@.store, target@));
                }
            },
            None => {
                let status_tree = match engine.get_status_tree() {
                    Ok(t) => t,
                    Err(e) => {
                        proof {
                            assert(false);
                        }
                        return Err(e);
                    },
                };
                validate_tree_into(engine, &status_tree, &mut issues, &mut warnings);
                proof {
                    assert(issues@.map_values(|x: ValidationIssue| x@) =~= spec_tree_issues(
                        engine@.config,
                        engine@.store,
                        status_tree@,
                    ));
                    assert(seq_views(warnings@) =~= spec_tree_warnings(status_tree@));
                }
            },
        }
        let progress = match engine.get_progress() {
            Ok(p) => p,
            Err(e) => {
                proof {
                    assert(false);
                }
                return Err(e);
            },
        };
        let completeness = progress.completion_percentage();
        let is_valid = issues.len() == 0;
        Ok(ValidationReport { is_valid, completeness, issues, warnings })
    }
}

impl ProcessEngine {
    /// Validate the whole project, or one step when an FQID is given.
    pub fn validate(&self, fqid: Option<&str>) -> (r: Result<ValidationReport, GlowError>)
        requires
            spec_node_count(
                spec_build_tree(self@.store, self@.config.root_process, None),
            ) <= usize::MAX,
        ensures
            ({
                let t = spec_build_tree(self@.store, self@.config.root_process, None);
                r matches Ok(rep) && {
                    &&& rep.issues@.map_values(|i: ValidationIssue| i@) == (match fqid {
                        Some(f) => spec_step_issues(self@.config, self@.store, f@),
                        None => spec_tree_issues(self@.config, self@.store, t),
                    })
                    &&& (rep.is_valid <==> rep.issues@.len() == 0)
                }
            }),
    {
        let validator = Validator::new();
        validator.validate_project(self, fqid)
    }
}

} // verus!
