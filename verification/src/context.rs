//! Execution context for steps.
//!
//! A context gathers the inputs, scope parameters, parent references and
//! linked-step data a step runs with, and resolves derivation mappings such
//! as `links.REQ-001.output.ACCEPTANCE_CRITERIA` against it.

use vstd::prelude::*;
use vstd::string::StringExecFns;

use crate::classify::{spec_split, split_str};
use crate::parameter::{ParameterValue, ParameterValueView};
use crate::step::{
    clone_param_values, clone_step_refs, spec_find_param, LinkRef, LinkRefView, ParentRef,
    ParentRefView, Step, StepView,
};
use crate::strutil::str_eq;

verus! {

broadcast use vstd::seq_lib::group_seq_lib_default;

/// The data of one linked step that feeds a context.
#[derive(Debug)]
pub struct LinkContext {
    /// Linked step id.
    pub step_id: String,
    /// The linked step's input parameter values.
    pub inputs: Vec<ParameterValue>,
    /// The linked step's output parameter values.
    pub outputs: Vec<ParameterValue>,
}

/// The mathematical model of one linked step's context data.
pub struct LinkContextView {
    pub step_id: Seq<char>,
    pub inputs: Seq<ParameterValueView>,
    pub outputs: Seq<ParameterValueView>,
}

impl View for LinkContext {
    type V = LinkContextView;

    open spec fn view(&self) -> LinkContextView {
        LinkContextView {
            step_id: self.step_id@,
            inputs: self.inputs@.map_values(|p: ParameterValue| p@),
            outputs: self.outputs@.map_values(|p: ParameterValue| p@),
        }
    }
}

/// Context builder for step execution.
#[derive(Debug)]
pub struct ContextBuilder {
    inputs: Vec<ParameterValue>,
    scope: Vec<ParameterValue>,
    parents: Vec<ParentRef>,
    links: Vec<LinkContext>,
}

/// The mathematical model of a context under construction.
pub struct ContextView {
    pub inputs: Seq<ParameterValueView>,
    pub scope: Seq<ParameterValueView>,
    pub parents: Seq<ParentRefView>,
    pub links: Seq<LinkContextView>,
}

impl View for ContextBuilder {
    type V = ContextView;

    closed spec fn view(&self) -> ContextView {
        ContextView {
            inputs: self.inputs@.map_values(|p: ParameterValue| p@),
            scope: self.scope@.map_values(|p: ParameterValue| p@),
            parents: self.parents@.map_values(|p: ParentRef| p@),
            links: self.links@.map_values(|l: LinkContext| l@),
        }
    }
}

/// The value of the first parameter with the given id, where that
/// parameter exists.
pub open spec fn spec_param_value(
    ps: Seq<ParameterValueView>,
    id: Seq<char>,
) -> Option<serde_json::Value> {
    match spec_find_param(ps, id) {
        Some(p) => p.value,
        None => None,
    }
}

/// The first linked step with the given id, if any.
pub open spec fn spec_find_link(
    ls: Seq<LinkContextView>,
    id: Seq<char>,
) -> Option<LinkContextView>
    decreases ls.len(),
{
    if ls.len() == 0 {
        None
    } else if ls[0].step_id == id {
        Some(ls[0])
    } else {
        spec_find_link(ls.drop_first(), id)
    }
}

/// The value a derivation mapping selects from a context: a dot-separated
/// path into the inputs, the scope, or one linked step's inputs or outputs.
pub open spec fn spec_resolve_mapping(c: ContextView, m: Seq<char>) -> Option<serde_json::Value> {
    let parts = spec_split(m, '.');
    if parts[0] == "input"@ && parts.len() >= 2 {
        spec_param_value(c.inputs, parts[1])
    } else if parts[0] == "scope"@ && parts.len() >= 2 {
        spec_param_value(c.scope, parts[1])
    } else if parts[0] == "links"@ && parts.len() >= 4 {
        match spec_find_link(c.links, parts[1]) {
            None => None,
            Some(l) => if parts[2] == "input"@ {
                spec_param_value(l.inputs, parts[3])
            } else if parts[2] == "output"@ {
                spec_param_value(l.outputs, parts[3])
            } else {
                None
            },
        }
    } else {
        None
    }
}

impl ContextBuilder {
    /// Create an empty context builder.
    pub fn new() -> (r: Self)
        ensures
            r@.inputs.len() == 0,
            r@.scope.len() == 0,
            r@.parents.len() == 0,
            r@.links.len() == 0,
    {
        let r = ContextBuilder {
            inputs: Vec::new(),
            scope: Vec::new(),
            parents: Vec::new(),
            links: Vec::new(),
        };
        proof {
            assert(r@.inputs =~= Seq::<ParameterValueView>::empty());
            assert(r@.scope =~= Seq::<ParameterValueView>::empty());
            assert(r@.parents =~= Seq::<ParentRefView>::empty());
            assert(r@.links =~= Seq::<LinkContextView>::empty());
        }
        r
    }

    /// Add an input parameter.
    pub fn with_input(self, param: ParameterValue) -> (r: Self)
        ensures
            r@ == (ContextView { inputs: self@.inputs.push(param@), ..self@ }),
    {
        let ghost pre = self@;
        let mut b = self;
        b.inputs.push(param);
        proof {
            assert(b@.inputs =~= pre.inputs.push(b.inputs@.last()@));
        }
        b
    }

    /// Add a scope parameter.
    pub fn with_scope(self, param: ParameterValue) -> (r: Self)
        ensures
            r@ == (ContextView { scope: self@.scope.push(param@), ..self@ }),
    {
        let ghost pre = self@;
        let mut b = self;
        b.scope.push(param);
        proof {
            assert(b@.scope =~= pre.scope.push(b.scope@.last()@));
        }
        b
    }

    /// Add a parent reference.
    pub fn with_parent(self, parent: ParentRef) -> (r: Self)
        ensures
            r@ == (ContextView { parents: self@.parents.push(parent@), ..self@ }),
    {
        let ghost pre = self@;
        let mut b = self;
        b.parents.push(parent);
        proof {
            assert(b@.parents =~= pre.parents.push(b.parents@.last()@));
        }
        b
    }

    /// Add the data of one linked step.
    pub fn with_link(self, link: LinkContext) -> (r: Self)
        ensures
            r@ == (ContextView { links: self@.links.push(link@), ..self@ }),
    {
        let ghost pre = self@;
        let mut b = self;
        b.links.push(link);
        proof {
            assert(b@.links =~= pre.links.push(b.links@.last()@));
        }
        b
    }

    /// Build a context from a parent step: the parent's scope carries over,
    /// and the parent is recorded with its child summaries.
    pub fn from_parent(parent: &Step) -> (r: Self)
        ensures
            r@.inputs.len() == 0,
            r@.scope == parent@.scope,
            r@.parents.len() == 1,
            r@.parents[0].id == parent@.attr.id,
            r@.parents[0].steps == parent@.own_steps,
            r@.links.len() == 0,
    {
        let parent_ref = ParentRef {
            id: parent.attr.id.clone(),
            steps: clone_step_refs(&parent.own_steps),
        };
        let mut parents: Vec<ParentRef> = Vec::new();
        parents.push(parent_ref);
        let r = ContextBuilder {
            inputs: Vec::new(),
            scope: clone_param_values(&parent.scope),
            parents,
            links: Vec::new(),
        };
        proof {
            assert(r@.inputs =~= Seq::<ParameterValueView>::empty());
            assert(r@.scope =~= parent@.scope);
            assert(r@.parents[0].steps =~= parent@.own_steps);
            assert(r@.links =~= Seq::<LinkContextView>::empty());
        }
        r
    }

    /// Pour the context into a step: the inputs and parents replace the
    /// step's, the scope extends it, and each linked step becomes a
    /// dependency link reference.
    pub fn build_for_step(self, step: &mut Step)
        ensures
            final(step)@ == (StepView {
                input: self@.inputs,
                scope: old(step)@.scope + self@.scope,
                parent: self@.parents,
                links: old(step)@.links + self@.links.map_values(
                    |l: LinkContextView|
                        LinkRefView {
                            step_id: l.step_id,
                            link_type: "dependency"@,
                            step_status: None,
                        },
                ),
                ..old(step)@
            }),
    {
        let ghost ctx = self@;
        let ContextBuilder { inputs, mut scope, parents, links } = self;
        step.input = inputs;
        step.scope.append(&mut scope);
        step.parent = parents;
        let n = links.len();
        let mut i: usize = 0;
        while i < n
            invariant
                0 <= i <= n,
                n == links@.len(),
                ctx.links.len() == n,
                forall|j: int| 0 <= j < n ==> #[trigger] links@[j]@ == ctx.links[j],
                step@.attr == old(step)@.attr,
                step@.input == ctx.inputs,
                step@.scope == old(step)@.scope + ctx.scope,
                step@.output == old(step)@.output,
                step@.parent == ctx.parents,
                step@.own_steps == old(step)@.own_steps,
                step@.links == old(step)@.links + ctx.links.take(i as int).map_values(
                    |l: LinkContextView|
                        LinkRefView {
                            step_id: l.step_id,
                            link_type: "dependency"@,
                            step_status: None,
                        },
                ),
            decreases n - i,
        {
            let ghost pre_links = step@.links;
            let sid = links[i].step_id.clone();
            let lt = String::from_str("dependency");
            proof {
                assert(links@[i as int]@ == ctx.links[i as int]);
                assert(sid@ == ctx.links[i as int].step_id);
                assert(lt@ == "dependency"@);
            }
            let link_ref = LinkRef { step_id: sid, link_type: lt, step_status: None };
            proof {
                assert(link_ref@ == (LinkRefView {
                    step_id: ctx.links[i as int].step_id,
                    link_type: "dependency"@,
                    step_status: None,
                }));
            }
            step.links.push(link_ref);
            proof {
                assert(step@.links =~= pre_links.push(step.links@.last()@));
                assert(step.links@.last()@ == (LinkRefView {
                    step_id: ctx.links[i as int].step_id,
                    link_type: "dependency"@,
                    step_status: None,
                }));
            }
            i = i + 1;
            proof {
                assert(ctx.links.take(i as int) =~= ctx.links.take(i as int - 1).push(
                    ctx.links[i as int - 1],
                ));
                assert(step@.links =~= old(step)@.links + ctx.links.take(i as int).map_values(
                    |l: LinkContextView|
                        LinkRefView {
                            step_id: l.step_id,
                            link_type: "dependency"@,
                            step_status: None,
                        },
                ));
            }
        }
        proof {
            assert(ctx.links.take(n as int) =~= ctx.links);
            assert(step@.input =~= ctx.inputs);
            assert(step@.parent =~= ctx.parents);
        }
    }

    /// Resolve a derivation mapping against this context.
    pub fn resolve_mappings(&self, mapping: &str) -> (r: Option<serde_json::Value>)
        ensures
            r == spec_resolve_mapping(self@, mapping@),
    {
        let parts = split_str(mapping, '.');
        proof {
            assert(crate::strutil::seq_views(parts@) == spec_split(mapping@, '.'));
            assert(spec_split(mapping@, '.').len() >= 1);
        }
        if str_eq(parts[0].as_str(), "input") && parts.len() >= 2 {
            find_param_value(&self.inputs, parts[1].as_str())
        } else if str_eq(parts[0].as_str(), "scope") && parts.len() >= 2 {
            find_param_value(&self.scope, parts[1].as_str())
        } else if str_eq(parts[0].as_str(), "links") && parts.len() >= 4 {
            match find_link(&self.links, parts[1].as_str()) {
                None => None,
                Some(l) => {
                    if str_eq(parts[2].as_str(), "input") {
                        find_param_value(&l.inputs, parts[3].as_str())
                    } else if str_eq(parts[2].as_str(), "output") {
                        find_param_value(&l.outputs, parts[3].as_str())
                    } else {
                        None
                    }
                },
            }
        } else {
            None
        }
    }
}

/// The value of the first parameter with the given id.
fn find_param_value(ps: &Vec<ParameterValue>, id: &str) -> (r: Option<serde_json::Value>)
    ensures
        r == spec_param_value(ps@.map_values(|p: ParameterValue| p@), id@),
{
    match crate::step::find_param(ps, id) {
        Some(p) => crate::jsonval::clone_opt_value(&p.value),
        None => None,
    }
}

/// Find the first linked step with the given id.
fn find_link<'a>(ls: &'a Vec<LinkContext>, id: &str) -> (r: Option<&'a LinkContext>)
    ensures
        match r {
            Some(l) => spec_find_link(ls@.map_values(|x: LinkContext| x@), id@) == Some(l@),
            None => spec_find_link(ls@.map_values(|x: LinkContext| x@), id@) is None,
        },
{
    let ghost lv = ls@.map_values(|x: LinkContext| x@);
    proof {
        assert(lv.skip(0) =~= lv);
    }
    let n = ls.len();
    let mut i: usize = 0;
    while i < n
        invariant
            0 <= i <= n,
            n == ls@.len(),
            lv == ls@.map_values(|x: LinkContext| x@),
            spec_find_link(lv.skip(i as int), id@) == spec_find_link(lv, id@),
        decreases n - i,
    {
        proof {
            assert(lv.skip(i as int)[0] == lv[i as int]);
            assert(lv.skip(i as int).drop_first() =~= lv.skip(i as int + 1));
        }
        if str_eq(ls[i].step_id.as_str(), id) {
            return Some(&ls[i]);
        }
        i = i + 1;
    }
    proof {
        assert(lv.skip(n as int) =~= Seq::<LinkContextView>::empty());
    }
    None
}

} // verus!
