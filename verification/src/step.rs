//! The step data model.
//!
//! A `StepDefinition` is the static declared shape of a step, loaded from
//! configuration: a definition with sub-steps is a process, one without is a
//! task. A `Step` is the persisted runtime record of one step: its
//! attributes, parameter values, cached child summaries and links.

use vstd::prelude::*;
use vstd::string::StringExecFns;

use crate::fqid::{spec_child_fqid, ROOT_FQID};
use crate::link::{LinkDefView, LinkDefinition};
use crate::parameter::{ParameterRef, ParameterRefView, ParameterValue, ParameterValueView};
use crate::status::StepStatus;
use crate::strutil::{clone_opt_string, opt_view, str_eq};

verus! {

/// Step definition in process configuration.
#[derive(Debug)]
pub struct StepDefinition {
    /// Step identifier (ROOT for the root process).
    pub id: String,
    /// Description of the step's purpose.
    pub purpose: Option<String>,
    /// Classification expression.
    pub classification: Option<String>,
    /// Criteria to consider the step done.
    pub expectations: Option<String>,
    /// Template file name override.
    pub template: Option<String>,
    /// Input parameters for this step.
    pub inputs: Vec<ParameterRef>,
    /// Output parameters produced by this step.
    pub outputs: Vec<ParameterRef>,
    /// Scope parameters for this step.
    pub scope: Vec<ParameterRef>,
    /// Sub-steps for a step-as-process.
    pub steps: Vec<StepDefinition>,
    /// Links between sub-steps.
    pub links: Vec<LinkDefinition>,
    /// Whether multiple iterations are allowed.
    pub allow_iterations: bool,
}

/// The mathematical model of a step definition tree.
pub struct DefView {
    pub id: Seq<char>,
    pub purpose: Option<Seq<char>>,
    pub classification: Option<Seq<char>>,
    pub expectations: Option<Seq<char>>,
    pub template: Option<Seq<char>>,
    pub inputs: Seq<ParameterRefView>,
    pub outputs: Seq<ParameterRefView>,
    pub scope: Seq<ParameterRefView>,
    pub steps: Seq<DefView>,
    pub links: Seq<LinkDefView>,
    pub allow_iterations: bool,
}

/// The view of a step definition, down through all of its sub-steps.
pub open spec fn def_view(d: StepDefinition) -> DefView
    decreases d,
    via def_view_decreases
{
    DefView {
        id: d.id@,
        purpose: opt_view(d.purpose),
        classification: opt_view(d.classification),
        expectations: opt_view(d.expectations),
        template: opt_view(d.template),
        inputs: d.inputs@.map_values(|p: ParameterRef| p@),
        outputs: d.outputs@.map_values(|p: ParameterRef| p@),
        scope: d.scope@.map_values(|p: ParameterRef| p@),
        steps: def_views(d.steps@),
        links: d.links@.map_values(|l: LinkDefinition| l@),
        allow_iterations: d.allow_iterations,
    }
}

#[via_fn]
proof fn def_view_decreases(d: StepDefinition) {
    assert(decreases_to!(d => d.steps));
    assert(decreases_to!(d.steps => d.steps@));
}

/// The views of a sequence of step definitions.
pub open spec fn def_views(s: Seq<StepDefinition>) -> Seq<DefView>
    decreases s,
{
    if s.len() == 0 {
        Seq::empty()
    } else {
        seq![def_view(s[0])] + def_views(s.drop_first())
    }
}

/// A sequence of definition views holds, position by position, the view of
/// each definition.
pub proof fn lemma_def_views_index(s: Seq<StepDefinition>)
    ensures
        def_views(s).len() == s.len(),
        forall|i: int| 0 <= i < s.len() ==> def_views(s)[i] == def_view(s[i]),
    decreases s,
{
    if s.len() > 0 {
        lemma_def_views_index(s.drop_first());
        assert forall|i: int| 0 <= i < s.len() implies def_views(s)[i] == def_view(s[i]) by {
            if i > 0 {
                assert(def_views(s)[i] == def_views(s.drop_first())[i - 1]);
                assert(s.drop_first()[i - 1] == s[i]);
            }
        }
    }
}

impl View for StepDefinition {
    type V = DefView;

    open spec fn view(&self) -> DefView {
        def_view(*self)
    }
}

/// The first sub-definition with the given id, if any.
pub open spec fn spec_find_sub(steps: Seq<DefView>, id: Seq<char>) -> Option<DefView>
    decreases steps.len(),
{
    if steps.len() == 0 {
        None
    } else if steps[0].id == id {
        Some(steps[0])
    } else {
        spec_find_sub(steps.drop_first(), id)
    }
}

/// Whether some sub-definition carries the given id.
pub open spec fn spec_has_sub(steps: Seq<DefView>, id: Seq<char>) -> bool {
    exists|i: int| 0 <= i < steps.len() && steps[i].id == id
}

/// A found sub-definition is a witness to its id, and a missing one to the
/// id's absence.
pub proof fn lemma_find_sub_props(steps: Seq<DefView>, id: Seq<char>)
    ensures
        spec_find_sub(steps, id) is Some <==> spec_has_sub(steps, id),
        match spec_find_sub(steps, id) {
            Some(d) => d.id == id && exists|i: int| 0 <= i < steps.len() && steps[i] == d,
            None => true,
        },
    decreases steps.len(),
{
    if steps.len() > 0 && steps[0].id != id {
        lemma_find_sub_props(steps.drop_first(), id);
        let rest = steps.drop_first();
        if spec_has_sub(steps, id) {
            let i = choose|i: int| 0 <= i < steps.len() && steps[i].id == id;
            assert(rest[i - 1].id == id);
            assert(spec_has_sub(rest, id));
        }
        if spec_find_sub(rest, id) is Some {
            let d = spec_find_sub(rest, id).unwrap();
            let i = choose|i: int| 0 <= i < rest.len() && rest[i] == d;
            assert(steps[i + 1] == d);
        }
    }
}

impl StepDefinition {
    /// Create a new root step definition.
    pub fn new_root() -> (r: Self)
        ensures
            r@.id == ROOT_FQID@,
            r@.purpose == Some("Development Process"@),
            r@.classification is None,
            r@.expectations is None,
            r@.template is None,
            r@.inputs.len() == 0,
            r@.outputs.len() == 0,
            r@.scope.len() == 0,
            r@.steps.len() == 0,
            r@.links.len() == 0,
            r@.allow_iterations,
    {
        let r = StepDefinition {
            id: String::from_str(ROOT_FQID),
            purpose: Some(String::from_str("Development Process")),
            classification: None,
            expectations: None,
            template: None,
            inputs: Vec::new(),
            outputs: Vec::new(),
            scope: Vec::new(),
            steps: Vec::new(),
            links: Vec::new(),
            allow_iterations: true,
        };
        proof {
            assert(r@.inputs =~= Seq::<ParameterRefView>::empty());
            assert(r@.outputs =~= Seq::<ParameterRefView>::empty());
            assert(r@.scope =~= Seq::<ParameterRefView>::empty());
            assert(r@.steps =~= Seq::<DefView>::empty());
            assert(r@.links =~= Seq::<LinkDefView>::empty());
        }
        r
    }

    /// Check if this step definition is a process (has sub-steps).
    pub fn is_process(&self) -> (r: bool)
        ensures
            r == (self@.steps.len() != 0),
    {
        self.steps.len() != 0
    }

    /// Check if this step definition is a task (no sub-steps).
    pub fn is_task(&self) -> (r: bool)
        ensures
            r == (self@.steps.len() == 0),
    {
        self.steps.len() == 0
    }

    /// Find a sub-step by id.
    #[verifier::loop_isolation(false)]
    pub fn find_step(&self, id: &str) -> (r: Option<&StepDefinition>)
        ensures
            match r {
                Some(d) => spec_find_sub(self@.steps, id@) == Some(d@),
                None => spec_find_sub(self@.steps, id@) is None,
            },
    {
        proof {
            lemma_def_views_index(self.steps@);
            assert(self@.steps.skip(0) =~= self@.steps);
        }
        let n = self.steps.len();
        let mut i: usize = 0;
        while i < n
            invariant
                0 <= i <= n,
                n == self.steps@.len(),
                forall|j: int| 0 <= j < i ==> self@.steps[j].id != id@,
                spec_find_sub(self@.steps.skip(i as int), id@) == spec_find_sub(
                    self@.steps,
                    id@,
                ),
            decreases n - i,
        {
            proof {
                assert(self@.steps.skip(i as int)[0] == self@.steps[i as int]);
                assert(self@.steps.skip(i as int).drop_first() =~= self@.steps.skip(i as int + 1));
            }
            if str_eq(self.steps[i].id.as_str(), id) {
                proof {
                    assert(self@.steps[i as int].id == id@);
                }
                return Some(&self.steps[i]);
            }
            i = i + 1;
        }
        proof {
            assert(self@.steps.skip(n as int) =~= Seq::<DefView>::empty());
        }
        None
    }

    /// Get all sub-step ids in this definition, in declaration order.
    #[verifier::loop_isolation(false)]
    pub fn all_step_ids(&self) -> (r: Vec<String>)
        ensures
            r@.len() == self@.steps.len(),
            forall|i: int| 0 <= i < r@.len() ==> r@[i]@ == self@.steps[i].id,
    {
        proof {
            lemma_def_views_index(self.steps@);
        }
        let n = self.steps.len();
        let mut ids: Vec<String> = Vec::new();
        let mut i: usize = 0;
        while i < n
            invariant
                0 <= i <= n,
                n == self.steps@.len(),
                ids@.len() == i,
                forall|j: int| 0 <= j < i ==> ids@[j]@ == self@.steps[j].id,
            decreases n - i,
        {
            ids.push(self.steps[i].id.clone());
            i = i + 1;
        }
        ids
    }
}

impl Clone for StepDefinition {
    /// Clone the whole definition tree.
    #[verifier::loop_isolation(false)]
    fn clone(&self) -> (r: Self)
        ensures
            r@ == self@,
        decreases *self,
    {
        proof {
            lemma_def_views_index(self.steps@);
        }
        let steps_len = self.steps.len();
        let mut steps: Vec<StepDefinition> = Vec::new();
        let mut i: usize = 0;
        while i < steps_len
            invariant
                0 <= i <= steps_len,
                steps_len == self.steps@.len(),
                steps@.len() == i,
                forall|j: int| 0 <= j < i ==> steps@[j]@ == self@.steps[j],
            decreases steps_len - i,
        {
            proof {
                assert(decreases_to!(*self => self.steps@[i as int]));
            }
            let sub = self.steps[i].clone();
            steps.push(sub);
            i = i + 1;
        }
        let r = StepDefinition {
            id: self.id.clone(),
            purpose: clone_opt_string(&self.purpose),
            classification: clone_opt_string(&self.classification),
            expectations: clone_opt_string(&self.expectations),
            template: clone_opt_string(&self.template),
            inputs: clone_param_refs(&self.inputs),
            outputs: clone_param_refs(&self.outputs),
            scope: clone_param_refs(&self.scope),
            steps,
            links: clone_link_defs(&self.links),
            allow_iterations: self.allow_iterations,
        };
        proof {
            lemma_def_views_index(r.steps@);
            assert(r@.inputs =~= self@.inputs);
            assert(r@.outputs =~= self@.outputs);
            assert(r@.scope =~= self@.scope);
            assert(r@.steps =~= self@.steps);
            assert(r@.links =~= self@.links);
        }
        r
    }
}

/// Clone a vector of parameter references.
pub fn clone_param_refs(v: &Vec<ParameterRef>) -> (r: Vec<ParameterRef>)
    ensures
        r@.len() == v@.len(),
        forall|i: int| 0 <= i < v@.len() ==> r@[i]@ == v@[i]@,
{
    let n = v.len();
    let mut out: Vec<ParameterRef> = Vec::new();
    let mut i: usize = 0;
    while i < n
        invariant
            0 <= i <= n,
            n == v@.len(),
            out@.len() == i,
            forall|j: int| 0 <= j < i ==> out@[j]@ == v@[j]@,
        decreases n - i,
    {
        out.push(v[i].clone());
        i = i + 1;
    }
    out
}

/// Clone a vector of link definitions.
pub fn clone_link_defs(v: &Vec<LinkDefinition>) -> (r: Vec<LinkDefinition>)
    ensures
        r@.len() == v@.len(),
        forall|i: int| 0 <= i < v@.len() ==> r@[i]@ == v@[i]@,
{
    let n = v.len();
    let mut out: Vec<LinkDefinition> = Vec::new();
    let mut i: usize = 0;
    while i < n
        invariant
            0 <= i <= n,
            n == v@.len(),
            out@.len() == i,
            forall|j: int| 0 <= j < i ==> out@[j]@ == v@[j]@,
        decreases n - i,
    {
        out.push(v[i].clone());
        i = i + 1;
    }
    out
}

/// Clone a vector of parameter values.
pub fn clone_param_values(v: &Vec<ParameterValue>) -> (r: Vec<ParameterValue>)
    ensures
        r@.len() == v@.len(),
        forall|i: int| 0 <= i < v@.len() ==> r@[i]@ == v@[i]@,
{
    let n = v.len();
    let mut out: Vec<ParameterValue> = Vec::new();
    let mut i: usize = 0;
    while i < n
        invariant
            0 <= i <= n,
            n == v@.len(),
            out@.len() == i,
            forall|j: int| 0 <= j < i ==> out@[j]@ == v@[j]@,
        decreases n - i,
    {
        out.push(v[i].clone());
        i = i + 1;
    }
    out
}

/// Step attributes stored in data records.
#[derive(Debug)]
pub struct StepAttributes {
    /// Step identifier within the parent scope.
    pub id: String,
    /// Fully qualified identifier (dot-separated path from the root).
    pub fqid: Option<String>,
    /// Classification expression.
    pub classification: Option<String>,
    /// Step purpose.
    pub purpose: Option<String>,
    /// Criteria to consider the step done.
    pub expectations: Option<String>,
    /// Current step status.
    pub status: StepStatus,
}

/// The mathematical model of step attributes.
pub struct AttrsView {
    pub id: Seq<char>,
    pub fqid: Option<Seq<char>>,
    pub classification: Option<Seq<char>>,
    pub purpose: Option<Seq<char>>,
    pub expectations: Option<Seq<char>>,
    pub status: StepStatus,
}

impl View for StepAttributes {
    type V = AttrsView;

    open spec fn view(&self) -> AttrsView {
        AttrsView {
            id: self.id@,
            fqid: opt_view(self.fqid),
            classification: opt_view(self.classification),
            purpose: opt_view(self.purpose),
            expectations: opt_view(self.expectations),
            status: self.status,
        }
    }
}

impl Clone for StepAttributes {
    fn clone(&self) -> (r: Self)
        ensures
            r@ == self@,
    {
        StepAttributes {
            id: self.id.clone(),
            fqid: clone_opt_string(&self.fqid),
            classification: clone_opt_string(&self.classification),
            purpose: clone_opt_string(&self.purpose),
            expectations: clone_opt_string(&self.expectations),
            status: self.status,
        }
    }
}

/// The FQID a definition's step gets under the given parent: the parent and
/// the step's own id joined, or the id alone where there is no parent.
pub open spec fn spec_fqid_for(id: Seq<char>, parent: Option<Seq<char>>) -> Seq<char> {
    match parent {
        Some(p) => spec_child_fqid(p, id),
        None => id,
    }
}

impl StepAttributes {
    /// Create new step attributes from a definition. The new step starts in
    /// `Wait`, under the FQID its parent dictates.
    pub fn from_definition(def: &StepDefinition, parent_fqid: Option<&str>) -> (r: Self)
        ensures
            r@.id == def@.id,
            r@.fqid == Some(spec_fqid_for(def@.id, match parent_fqid {
                Some(p) => Some(p@),
                None => None,
            })),
            r@.classification == def@.classification,
            r@.purpose == def@.purpose,
            r@.expectations == def@.expectations,
            r@.status == StepStatus::Wait,
    {
        let fqid = match parent_fqid {
            Some(parent) => crate::fqid::child_fqid(parent, def.id.as_str()),
            None => def.id.clone(),
        };
        StepAttributes {
            id: def.id.clone(),
            fqid: Some(fqid),
            classification: clone_opt_string(&def.classification),
            purpose: clone_opt_string(&def.purpose),
            expectations: clone_opt_string(&def.expectations),
            status: StepStatus::Wait,
        }
    }
}

/// Reference to a step with its cached status.
#[derive(Debug)]
pub struct StepRef {
    /// Step id.
    pub id: String,
    /// Step status at the time the reference was recorded.
    pub status: StepStatus,
}

/// The mathematical model of a step reference.
pub struct StepRefView {
    pub id: Seq<char>,
    pub status: StepStatus,
}

impl View for StepRef {
    type V = StepRefView;

    open spec fn view(&self) -> StepRefView {
        StepRefView { id: self.id@, status: self.status }
    }
}

impl Clone for StepRef {
    fn clone(&self) -> (r: Self)
        ensures
            r@ == self@,
    {
        StepRef { id: self.id.clone(), status: self.status }
    }
}

/// Clone a vector of step references.
pub fn clone_step_refs(v: &Vec<StepRef>) -> (r: Vec<StepRef>)
    ensures
        r@.len() == v@.len(),
        forall|i: int| 0 <= i < v@.len() ==> r@[i]@ == v@[i]@,
{
    let n = v.len();
    let mut out: Vec<StepRef> = Vec::new();
    let mut i: usize = 0;
    while i < n
        invariant
            0 <= i <= n,
            n == v@.len(),
            out@.len() == i,
            forall|j: int| 0 <= j < i ==> out@[j]@ == v@[j]@,
        decreases n - i,
    {
        out.push(v[i].clone());
        i = i + 1;
    }
    out
}

/// Reference to a parent step in the execution stack.
#[derive(Debug)]
pub struct ParentRef {
    /// Parent step id.
    pub id: String,
    /// Sibling steps in the parent's iteration.
    pub steps: Vec<StepRef>,
}

/// The mathematical model of a parent reference.
pub struct ParentRefView {
    pub id: Seq<char>,
    pub steps: Seq<StepRefView>,
}

impl View for ParentRef {
    type V = ParentRefView;

    open spec fn view(&self) -> ParentRefView {
        ParentRefView { id: self.id@, steps: self.steps@.map_values(|s: StepRef| s@) }
    }
}

impl Clone for ParentRef {
    fn clone(&self) -> (r: Self)
        ensures
            r@ == self@,
    {
        let r = ParentRef { id: self.id.clone(), steps: clone_step_refs(&self.steps) };
        proof {
            assert(r@.steps =~= self@.steps);
        }
        r
    }
}

/// Clone a vector of parent references.
pub fn clone_parent_refs(v: &Vec<ParentRef>) -> (r: Vec<ParentRef>)
    ensures
        r@.len() == v@.len(),
        forall|i: int| 0 <= i < v@.len() ==> r@[i]@ == v@[i]@,
{
    let n = v.len();
    let mut out: Vec<ParentRef> = Vec::new();
    let mut i: usize = 0;
    while i < n
        invariant
            0 <= i <= n,
            n == v@.len(),
            out@.len() == i,
            forall|j: int| 0 <= j < i ==> out@[j]@ == v@[j]@,
        decreases n - i,
    {
        out.push(v[i].clone());
        i = i + 1;
    }
    out
}

/// Reference to a linked step.
#[derive(Debug)]
pub struct LinkRef {
    /// Linked step id.
    pub step_id: String,
    /// Type of link (dependency, predecessor, or custom).
    pub link_type: String,
    /// Status of the linked step at the time the link was recorded.
    pub step_status: Option<StepStatus>,
}

/// The mathematical model of a link reference.
pub struct LinkRefView {
    pub step_id: Seq<char>,
    pub link_type: Seq<char>,
    pub step_status: Option<StepStatus>,
}

impl View for LinkRef {
    type V = LinkRefView;

    open spec fn view(&self) -> LinkRefView {
        LinkRefView {
            step_id: self.step_id@,
            link_type: self.link_type@,
            step_status: self.step_status,
        }
    }
}

impl Clone for LinkRef {
    fn clone(&self) -> (r: Self)
        ensures
            r@ == self@,
    {
        LinkRef {
            step_id: self.step_id.clone(),
            link_type: self.link_type.clone(),
            step_status: self.step_status,
        }
    }
}

/// Clone a vector of link references.
pub fn clone_link_refs(v: &Vec<LinkRef>) -> (r: Vec<LinkRef>)
    ensures
        r@.len() == v@.len(),
        forall|i: int| 0 <= i < v@.len() ==> r@[i]@ == v@[i]@,
{
    let n = v.len();
    let mut out: Vec<LinkRef> = Vec::new();
    let mut i: usize = 0;
    while i < n
        invariant
            0 <= i <= n,
            n == v@.len(),
            out@.len() == i,
            forall|j: int| 0 <= j < i ==> out@[j]@ == v@[j]@,
        decreases n - i,
    {
        out.push(v[i].clone());
        i = i + 1;
    }
    out
}

/// Runtime step instance with data.
#[derive(Debug)]
pub struct Step {
    /// Step attributes.
    pub attr: StepAttributes,
    /// Input parameter values.
    pub input: Vec<ParameterValue>,
    /// Scope parameter values.
    pub scope: Vec<ParameterValue>,
    /// Output parameter values.
    pub output: Vec<ParameterValue>,
    /// Parent step references (execution stack).
    pub parent: Vec<ParentRef>,
    /// Cached summaries of the sub-steps of a step-as-process.
    pub own_steps: Vec<StepRef>,
    /// Links to other steps.
    pub links: Vec<LinkRef>,
}

/// The mathematical model of a runtime step.
pub struct StepView {
    pub attr: AttrsView,
    pub input: Seq<ParameterValueView>,
    pub scope: Seq<ParameterValueView>,
    pub output: Seq<ParameterValueView>,
    pub parent: Seq<ParentRefView>,
    pub own_steps: Seq<StepRefView>,
    pub links: Seq<LinkRefView>,
}

impl View for Step {
    type V = StepView;

    open spec fn view(&self) -> StepView {
        StepView {
            attr: self.attr@,
            input: self.input@.map_values(|p: ParameterValue| p@),
            scope: self.scope@.map_values(|p: ParameterValue| p@),
            output: self.output@.map_values(|p: ParameterValue| p@),
            parent: self.parent@.map_values(|p: ParentRef| p@),
            own_steps: self.own_steps@.map_values(|s: StepRef| s@),
            links: self.links@.map_values(|l: LinkRef| l@),
        }
    }
}

impl Clone for Step {
    fn clone(&self) -> (r: Self)
        ensures
            r@ == self@,
    {
        let r = Step {
            attr: self.attr.clone(),
            input: clone_param_values(&self.input),
            scope: clone_param_values(&self.scope),
            output: clone_param_values(&self.output),
            parent: clone_parent_refs(&self.parent),
            own_steps: clone_step_refs(&self.own_steps),
            links: clone_link_refs(&self.links),
        };
        proof {
            assert(r@.input =~= self@.input);
            assert(r@.scope =~= self@.scope);
            assert(r@.output =~= self@.output);
            assert(r@.parent =~= self@.parent);
            assert(r@.own_steps =~= self@.own_steps);
            assert(r@.links =~= self@.links);
        }
        r
    }
}

/// The FQID of a step record: the recorded FQID, or the plain id where none
/// was recorded.
pub open spec fn spec_step_fqid(s: StepView) -> Seq<char> {
    match s.attr.fqid {
        Some(f) => f,
        None => s.attr.id,
    }
}

/// The first parameter value with the given id, if any.
pub open spec fn spec_find_param(ps: Seq<ParameterValueView>, id: Seq<char>) -> Option<
    ParameterValueView,
>
    decreases ps.len(),
{
    if ps.len() == 0 {
        None
    } else if ps[0].id == id {
        Some(ps[0])
    } else {
        spec_find_param(ps.drop_first(), id)
    }
}

impl Step {
    /// Create a new step from a definition: fresh attributes in `Wait` and
    /// no data.
    pub fn from_definition(def: &StepDefinition, parent_fqid: Option<&str>) -> (r: Self)
        ensures
            r@.attr.id == def@.id,
            r@.attr.fqid == Some(spec_fqid_for(def@.id, match parent_fqid {
                Some(p) => Some(p@),
                None => None,
            })),
            r@.attr.classification == def@.classification,
            r@.attr.purpose == def@.purpose,
            r@.attr.expectations == def@.expectations,
            r@.attr.status == StepStatus::Wait,
            r@.input.len() == 0,
            r@.scope.len() == 0,
            r@.output.len() == 0,
            r@.parent.len() == 0,
            r@.own_steps.len() == 0,
            r@.links.len() == 0,
    {
        let r = Step {
            attr: StepAttributes::from_definition(def, parent_fqid),
            input: Vec::new(),
            scope: Vec::new(),
            output: Vec::new(),
            parent: Vec::new(),
            own_steps: Vec::new(),
            links: Vec::new(),
        };
        proof {
            assert(r@.input =~= Seq::<ParameterValueView>::empty());
            assert(r@.scope =~= Seq::<ParameterValueView>::empty());
            assert(r@.output =~= Seq::<ParameterValueView>::empty());
            assert(r@.parent =~= Seq::<ParentRefView>::empty());
            assert(r@.own_steps =~= Seq::<StepRefView>::empty());
            assert(r@.links =~= Seq::<LinkRefView>::empty());
        }
        r
    }

    /// Get the fully qualified id.
    pub fn fqid(&self) -> (r: &str)
        ensures
            r@ == spec_step_fqid(self@),
    {
        match &self.attr.fqid {
            Some(f) => f.as_str(),
            None => self.attr.id.as_str(),
        }
    }

    /// Get the current status.
    pub fn status(&self) -> (r: StepStatus)
        ensures
            r == self@.attr.status,
    {
        self.attr.status
    }

    /// Check if this step is a process (has sub-steps).
    pub fn is_process(&self) -> (r: bool)
        ensures
            r == (self@.own_steps.len() != 0),
    {
        self.own_steps.len() != 0
    }

    /// Get an input parameter value by id.
    pub fn get_input(&self, id: &str) -> (r: Option<&ParameterValue>)
        ensures
            match r {
                Some(p) => spec_find_param(self@.input, id@) == Some(p@),
                None => spec_find_param(self@.input, id@) is None,
            },
    {
        find_param(&self.input, id)
    }

    /// Get a scope parameter value by id.
    pub fn get_scope(&self, id: &str) -> (r: Option<&ParameterValue>)
        ensures
            match r {
                Some(p) => spec_find_param(self@.scope, id@) == Some(p@),
                None => spec_find_param(self@.scope, id@) is None,
            },
    {
        find_param(&self.scope, id)
    }

    /// Get an output parameter value by id.
    pub fn get_output(&self, id: &str) -> (r: Option<&ParameterValue>)
        ensures
            match r {
                Some(p) => spec_find_param(self@.output, id@) == Some(p@),
                None => spec_find_param(self@.output, id@) is None,
            },
    {
        find_param(&self.output, id)
    }
}

/// Find the first parameter value with the given id.
pub fn find_param<'a>(ps: &'a Vec<ParameterValue>, id: &str) -> (r: Option<&'a ParameterValue>)
    ensures
        match r {
            Some(p) => spec_find_param(ps@.map_values(|p: ParameterValue| p@), id@) == Some(p@),
            None => spec_find_param(ps@.map_values(|p: ParameterValue| p@), id@) is None,
        },
{
    let ghost pv = ps@.map_values(|p: ParameterValue| p@);
    proof {
        assert(pv.skip(0) =~= pv);
    }
    let n = ps.len();
    let mut i: usize = 0;
    while i < n
        invariant
            0 <= i <= n,
            n == ps@.len(),
            pv == ps@.map_values(|p: ParameterValue| p@),
            forall|j: int| 0 <= j < i ==> pv[j].id != id@,
            spec_find_param(pv.skip(i as int), id@) == spec_find_param(pv, id@),
        decreases n - i,
    {
        proof {
            assert(pv.skip(i as int)[0] == pv[i as int]);
            assert(pv.skip(i as int).drop_first() =~= pv.skip(i as int + 1));
        }
        if str_eq(ps[i].id.as_str(), id) {
            proof {
                assert(pv[i as int].id == id@);
            }
            return Some(&ps[i]);
        }
        i = i + 1;
    }
    proof {
        assert(pv.skip(n as int) =~= Seq::<ParameterValueView>::empty());
    }
    None
}

} // verus!
