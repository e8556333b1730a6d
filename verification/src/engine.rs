//! The process engine.
//!
//! The engine owns the step lifecycle: it initializes steps from their
//! definitions, enforces the state machine on start and finish, resolves
//! blocking dependencies, propagates completion to parent steps, and derives
//! read-only views: the status tree, next actions and progress metrics.

use vstd::prelude::*;
use vstd::string::StringExecFns;

use crate::config::{spec_find_def, ProcessConfig, ProcessConfigView};
use crate::error::{GlowError, GlowErrorView};
use crate::fqid::{
    child_fqid, is_root_fqid, leaf_id, parent_fqid, spec_child_fqid, spec_leaf_id,
    spec_parent_fqid, ROOT_FQID,
};
use crate::graph::{reaches, EdgeView, LinkGraph};
use crate::link::{spec_is_blocking_type, LinkDefView, LinkDefinition};
use crate::parameter::{
    spec_ref_required, ParameterRef, ParameterRefView, ParameterValue, ParameterValueView,
};
use crate::status::StepStatus;
use crate::step::{
    spec_fqid_for, spec_step_fqid, AttrsView, DefView, Step, StepDefinition, StepRef, StepRefView,
    StepView,
};
use crate::store::{
    lemma_store_idx_props, lemma_store_update, spec_has_step, spec_step_at, spec_store_idx,
    spec_store_wf, Storage,
};
use crate::strutil::str_eq;

verus! {

broadcast use vstd::seq_lib::group_seq_lib_default;

/// The record `s` with its status replaced.
pub open spec fn spec_with_status(s: StepView, st: StepStatus) -> StepView {
    StepView {
        attr: crate::step::AttrsView { status: st, ..s.attr },
        ..s
    }
}

/// Whether two stores agree on every FQID outside the given set: lookups
/// find the same positions and the same records.
pub open spec fn spec_same_except(
    olds: Seq<StepView>,
    news: Seq<StepView>,
    except: Set<Seq<char>>,
) -> bool {
    forall|f: Seq<char>|
        !except.contains(f) ==> #[trigger] spec_store_idx(news, f) == spec_store_idx(olds, f) && (
        spec_has_step(olds, f) ==> spec_step_at(news, f) == spec_step_at(olds, f))
}

/// The mathematical model of the engine: the declared process and the
/// persisted step records.
pub struct EngineView {
    pub config: ProcessConfigView,
    pub store: Seq<StepView>,
}

/// Main process engine.
#[derive(Debug)]
pub struct ProcessEngine {
    /// Process configuration.
    config: ProcessConfig,
    /// Storage for step records.
    storage: Storage,
}

impl View for ProcessEngine {
    type V = EngineView;

    closed spec fn view(&self) -> EngineView {
        EngineView { config: self.config@, store: self.storage@ }
    }
}

impl ProcessEngine {
    /// The engine's invariant: no two records share an FQID.
    pub open spec fn inv(&self) -> bool {
        spec_store_wf(self@.store)
    }

    /// Create an engine over a process configuration, with no records yet.
    pub fn new(config: ProcessConfig) -> (r: Self)
        ensures
            r@.config == config@,
            r@.store == Seq::<StepView>::empty(),
            r.inv(),
    {
        ProcessEngine { config, storage: Storage::new() }
    }

    /// Create an engine over a process configuration and already-loaded step
    /// records.
    pub fn with_storage(config: ProcessConfig, storage: Storage) -> (r: Self)
        requires
            spec_store_wf(storage@),
        ensures
            r@.config == config@,
            r@.store == storage@,
            r.inv(),
    {
        ProcessEngine { config, storage }
    }

    /// Get the process configuration.
    pub fn process_config(&self) -> (r: &ProcessConfig)
        ensures
            r@ == self@.config,
    {
        &self.config
    }

    /// Get the storage.
    pub fn storage(&self) -> (r: &Storage)
        ensures
            r@ == self@.store,
    {
        &self.storage
    }

    /// Show a step: read its persisted record.
    pub fn show_step(&self, fqid: &str) -> (r: Result<Step, GlowError>)
        ensures
            match r {
                Ok(s) => spec_has_step(self@.store, fqid@) && s@ == spec_step_at(
                    self@.store,
                    fqid@,
                ),
                Err(e) => !spec_has_step(self@.store, fqid@) && e@
                    == (GlowErrorView::StepNotFound { fqid: fqid@ }),
            },
    {
        self.storage.read_step(fqid)
    }

    /// Start a step: only a step whose persisted status is exactly `Todo`
    /// may move to `InProgress`. On success the record is the only one that
    /// changes, and only in its status.
    pub fn start_step(&mut self, fqid: &str) -> (r: Result<Step, GlowError>)
        requires
            old(self).inv(),
        ensures
            final(self).inv(),
            final(self)@.config == old(self)@.config,
            r is Ok <==> (spec_has_step(old(self)@.store, fqid@) && spec_step_at(
                old(self)@.store,
                fqid@,
            ).attr.status == StepStatus::Todo),
            match r {
                Ok(s) => {
                    &&& s@ == spec_with_status(
                        spec_step_at(old(self)@.store, fqid@),
                        StepStatus::InProgress,
                    )
                    &&& spec_has_step(final(self)@.store, fqid@)
                    &&& spec_step_at(final(self)@.store, fqid@) == s@
                    &&& spec_same_except(
                        old(self)@.store,
                        final(self)@.store,
                        Set::empty().insert(fqid@),
                    )
                },
                Err(e) => {
                    &&& final(self)@.store == old(self)@.store
                    &&& if !spec_has_step(old(self)@.store, fqid@) {
                        e@ == (GlowErrorView::StepNotFound { fqid: fqid@ })
                    } else {
                        e@ == (GlowErrorView::InvalidStateTransition {
                            step_id: fqid@,
                            current: spec_step_at(
                                old(self)@.store,
                                fqid@,
                            ).attr.status.spec_label(),
                            target: StepStatus::InProgress.spec_label(),
                        })
                    }
                },
            },
    {
        let mut step = match self.storage.read_step(fqid) {
            Ok(s) => s,
            Err(e) => {
                return Err(e);
            },
        };
        if !matches!(step.status(), StepStatus::Todo) {
            return Err(GlowError::InvalidStateTransition {
                step_id: String::from_str(fqid),
                current: String::from_str(step.status().as_str()),
                target: String::from_str(StepStatus::InProgress.as_str()),
            });
        }
        step.attr.status = StepStatus::InProgress;
        proof {
            lemma_store_idx_props(old(self)@.store, fqid@);
            assert(step@ == spec_with_status(
                spec_step_at(old(self)@.store, fqid@),
                StepStatus::InProgress,
            ));
            assert(spec_step_fqid(step@) == fqid@);
        }
        self.storage.write_step(&step);
        proof {
            lemma_store_update(old(self)@.store, fqid@, step@);
        }
        Ok(step)
    }

    /// Finish a step: only a step whose persisted status is exactly
    /// `InProgress` may move to `Done`. The outputs are appended to the
    /// record, the record is persisted, and completion propagates to the
    /// parent: the child's summary moves to done, waiting siblings whose
    /// blocking dependencies are now met become `Todo`, and a parent whose
    /// children are all done becomes `Done` itself.
    pub fn finish_step(&mut self, fqid: &str, outputs: Vec<ParameterValue>) -> (r: Result<
        Step,
        GlowError,
    >)
        requires
            old(self).inv(),
        ensures
            final(self).inv(),
            final(self)@.config == old(self)@.config,
            r is Ok <==> (spec_has_step(old(self)@.store, fqid@) && spec_step_at(
                old(self)@.store,
                fqid@,
            ).attr.status == StepStatus::InProgress),
            match r {
                Ok(s) => {
                    &&& s@ == spec_finished(
                        spec_step_at(old(self)@.store, fqid@),
                        outputs@.map_values(|p: ParameterValue| p@),
                    )
                    &&& final(self)@.store == spec_parent_update(
                        old(self)@.config,
                        spec_store_write(old(self)@.store, s@),
                        fqid@,
                        s@.attr.id,
                    )
                },
                Err(e) => {
                    &&& final(self)@.store == old(self)@.store
                    &&& if !spec_has_step(old(self)@.store, fqid@) {
                        e@ == (GlowErrorView::StepNotFound { fqid: fqid@ })
                    } else {
                        e@ == (GlowErrorView::InvalidStateTransition {
                            step_id: fqid@,
                            current: spec_step_at(
                                old(self)@.store,
                                fqid@,
                            ).attr.status.spec_label(),
                            target: StepStatus::Done.spec_label(),
                        })
                    }
                },
            },
    {
        let ghost olds = old(self)@.store;
        let mut step = match self.storage.read_step(fqid) {
            Ok(s) => s,
            Err(e) => {
                return Err(e);
            },
        };
        if !matches!(step.status(), StepStatus::InProgress) {
            return Err(GlowError::InvalidStateTransition {
                step_id: String::from_str(fqid),
                current: String::from_str(step.status().as_str()),
                target: String::from_str(StepStatus::Done.as_str()),
            });
        }
        // record the outputs on the finished step
        let mut outs = outputs;
        let ghost outviews = outs@.map_values(|p: ParameterValue| p@);
        let ghost pre_out = step@.output;
        step.output.append(&mut outs);
        step.attr.status = StepStatus::Done;
        proof {
            lemma_store_idx_props(olds, fqid@);
            assert(step@.output =~= pre_out + outviews);
            assert(step@ == spec_finished(spec_step_at(olds, fqid@), outviews));
            assert(spec_step_fqid(step@) == fqid@);
        }
        let ghost pre = self.storage@;
        self.storage.write_step(&step);
        proof {
            assert(self.storage@ == spec_store_write(pre, step@));
            assert(spec_store_wf(self.storage@));
        }
        // propagate completion to the parent
        update_parent_after_step_done(&self.config, &mut self.storage, &step);
        Ok(step)
    }

    /// Initialize a step by FQID.
    ///
    /// Re-running on an `InProgress` step returns the existing record
    /// unchanged unless a new iteration is forced. Otherwise a fresh record
    /// is built from the definition: it starts `Todo` exactly when every
    /// required scope parameter has a value, and `Wait` otherwise. For a
    /// non-root step, every blocking link from the step under its parent
    /// must target a step whose persisted status is done. For a process
    /// definition, one waiting child is created per sub-definition and the
    /// children with no unmet blocking dependency become `Todo`.
    pub fn init_step(
        &mut self,
        fqid: &str,
        scope_params: Vec<ParameterValue>,
        force_new_iteration: bool,
    ) -> (r: Result<Step, GlowError>)
        requires
            old(self).inv(),
        ensures
            final(self).inv(),
            final(self)@.config == old(self)@.config,
            spec_find_def(old(self)@.config, fqid@) is None ==> (r matches Err(e) && e@
                == (GlowErrorView::StepNotFound { fqid: fqid@ }) && final(self)@.store == old(
                self,
            )@.store),
            (spec_find_def(old(self)@.config, fqid@) is Some && spec_has_step(
                old(self)@.store,
                fqid@,
            ) && spec_step_at(old(self)@.store, fqid@).attr.status == StepStatus::InProgress
                && !force_new_iteration) ==> (r matches Ok(s) && s@ == spec_step_at(
                old(self)@.store,
                fqid@,
            ) && final(self)@.store == old(self)@.store),
            (spec_find_def(old(self)@.config, fqid@) is Some && !(spec_has_step(
                old(self)@.store,
                fqid@,
            ) && spec_step_at(old(self)@.store, fqid@).attr.status == StepStatus::InProgress
                && !force_new_iteration)) ==> ({
                let d = spec_find_def(old(self)@.config, fqid@).unwrap();
                let p = spec_parent_fqid(fqid@);
                let sp = scope_params@.map_values(|v: ParameterValue| v@);
                if fqid@ != crate::fqid::ROOT_FQID@ && spec_find_def(
                    old(self)@.config,
                    p.unwrap(),
                ) is None {
                    (r matches Err(e) && e@ == (GlowErrorView::StepNotFound {
                        fqid: p.unwrap(),
                    }) && final(self)@.store == old(self)@.store)
                } else if fqid@ != crate::fqid::ROOT_FQID@ && spec_unmet_deps(
                    old(self)@.store,
                    p.unwrap(),
                    spec_find_def(old(self)@.config, p.unwrap()).unwrap().links,
                    spec_leaf_id(fqid@),
                ).len() > 0 {
                    (r matches Err(e) && e@ == (GlowErrorView::BlockedByDependencies {
                        step_id: fqid@,
                        dependencies: spec_unmet_deps(
                            old(self)@.store,
                            p.unwrap(),
                            spec_find_def(old(self)@.config, p.unwrap()).unwrap().links,
                            spec_leaf_id(fqid@),
                        ),
                    }) && final(self)@.store == old(self)@.store)
                } else {
                    (r matches Ok(s) && s@ == spec_init_result(d, p, sp) && final(self)@.store
                        == spec_init_store(d, p, sp, old(self)@.store))
                }
            }),
    {
        let ghost olds = old(self)@.store;
        let ghost cfg = old(self)@.config;
        let step_def = match self.config.find_step_definition(fqid) {
            None => {
                return Err(GlowError::StepNotFound { fqid: String::from_str(fqid) });
            },
            Some(d) => d,
        };
        // an in-progress step is returned as it stands, unless a new
        // iteration is forced
        if self.storage.step_exists(fqid) {
            let existing = match self.storage.read_step(fqid) {
                Ok(s) => s,
                Err(e) => {
                    proof {
                        assert(false);
                    }
                    return Err(e);
                },
            };
            if matches!(existing.status(), StepStatus::InProgress) && !force_new_iteration {
                return Ok(existing);
            }
        }
        // a non-root step may not begin while blocking links are unmet
        if !is_root_fqid(fqid) {
            let p_owned = match parent_fqid(fqid) {
                Some(p) => p,
                None => {
                    proof {
                        assert(false);
                    }
                    return Err(GlowError::StepNotFound { fqid: String::from_str(fqid) });
                },
            };
            let parent_def = match self.config.find_step_definition(p_owned.as_str()) {
                None => {
                    return Err(GlowError::StepNotFound { fqid: p_owned });
                },
                Some(d) => d,
            };
            let sid = leaf_id(fqid);
            let unmet = collect_unmet(
                &self.storage,
                p_owned.as_str(),
                &parent_def.links,
                sid.as_str(),
            );
            if unmet.len() > 0 {
                proof {
                    assert(crate::strutil::seq_views(unmet@).len() > 0);
                }
                return Err(GlowError::BlockedByDependencies {
                    step_id: String::from_str(fqid),
                    dependencies: unmet,
                });
            }
        }
        // build the fresh record from the definition
        let p_opt = parent_fqid(fqid);
        let mut step = match &p_opt {
            Some(p) => Step::from_definition(step_def, Some(p.as_str())),
            None => Step::from_definition(step_def, None),
        };
        step.scope = scope_params;
        let ghost sp = step@.scope;
        let can = scope_satisfied(&step_def.scope, &step.scope);
        if can {
            step.attr.status = StepStatus::Todo;
        } else {
            step.attr.status = StepStatus::Wait;
        }
        let ghost d = step_def@;
        let ghost p = spec_parent_fqid(fqid@);
        let ghost st0 = if spec_scope_satisfied(d.scope, sp) {
            StepStatus::Todo
        } else {
            StepStatus::Wait
        };
        proof {
            assert(step@.input =~= Seq::<ParameterValueView>::empty());
            assert(step@.output =~= Seq::<ParameterValueView>::empty());
            assert(step@.parent =~= Seq::<crate::step::ParentRefView>::empty());
            assert(step@.own_steps =~= Seq::<StepRefView>::empty());
            assert(step@.links =~= Seq::<crate::step::LinkRefView>::empty());
            assert(step@ == spec_new_step(d, p, sp, st0));
        }
        // a process definition gets one waiting child per sub-definition
        if step_def.steps.len() > 0 {
            init_process_iteration(&mut self.storage, &mut step, step_def);
            proof {
                assert(step@ == spec_init_result(d, p, sp));
            }
        }
        let ghost pre = self.storage@;
        self.storage.write_step(&step);
        proof {
            assert(self.storage@ == spec_store_write(pre, step@));
            assert(step@ == spec_init_result(d, p, sp));
            assert(self.storage@ == spec_init_store(d, p, sp, olds));
        }
        Ok(step)
    }

    /// Get the current project status tree: the definition hierarchy
    /// annotated with each step's live status.
    pub fn get_status_tree(&self) -> (r: Result<StatusTree, GlowError>)
        ensures
            r matches Ok(t) && t@ == spec_build_tree(
                self@.store,
                self@.config.root_process,
                None,
            ),
    {
        Ok(build_status_tree(&self.storage, &self.config.root_process, None))
    }

    /// Get the recommended next actions: one start recommendation per
    /// `Todo` node of the status tree, in definition order; nodes in any
    /// other status contribute only through their descendants.
    pub fn get_next_actions(&self) -> (r: Result<Vec<NextAction>, GlowError>)
        ensures
            r matches Ok(acts) && acts@.map_values(|a: NextAction| a@) == spec_next_actions(
                spec_build_tree(self@.store, self@.config.root_process, None),
            ),
    {
        let mut actions: Vec<NextAction> = Vec::new();
        let status_tree = build_status_tree(&self.storage, &self.config.root_process, None);
        proof {
            assert(actions@.map_values(|a: NextAction| a@) =~= Seq::<NextActionView>::empty());
        }
        collect_next_actions(&status_tree, &mut actions);
        proof {
            assert(Seq::<NextActionView>::empty() + spec_next_actions(status_tree@)
                =~= spec_next_actions(status_tree@));
        }
        Ok(actions)
    }

    /// Get progress metrics: one count per status over the status tree.
    /// The counts by status always add up to the total.
    pub fn get_progress(&self) -> (r: Result<ProgressMetrics, GlowError>)
        requires
            spec_node_count(
                spec_build_tree(self@.store, self@.config.root_process, None),
            ) <= usize::MAX,
        ensures
            r matches Ok(m) && ({
                let t = spec_build_tree(self@.store, self@.config.root_process, None);
                &&& m.total == spec_node_count(t)
                &&& m.wait == spec_count_status(t, StepStatus::Wait)
                &&& m.todo == spec_count_status(t, StepStatus::Todo)
                &&& m.in_progress == spec_count_status(t, StepStatus::InProgress)
                &&& m.done == spec_count_status(t, StepStatus::Done)
                &&& m.wait + m.todo + m.in_progress + m.done == m.total
            }),
    {
        let status_tree = build_status_tree(&self.storage, &self.config.root_process, None);
        let mut metrics = ProgressMetrics::default();
        collect_progress_metrics(&status_tree, &mut metrics);
        proof {
            lemma_counts_add_up(status_tree@);
        }
        Ok(metrics)
    }
}


/// The blocking edges among the declared links, in declaration order.
pub open spec fn spec_blocking_edges(links: Seq<LinkDefView>) -> Seq<EdgeView>
    decreases links.len(),
{
    if links.len() == 0 {
        Seq::empty()
    } else {
        let tail = spec_blocking_edges(links.drop_first());
        if spec_is_blocking_type(links[0].link_type) {
            seq![(links[0].from, links[0].to)] + tail
        } else {
            tail
        }
    }
}

/// The cached status of the first child summary with the given id, if any.
pub open spec fn spec_ref_status(own: Seq<StepRefView>, id: Seq<char>) -> Option<StepStatus>
    decreases own.len(),
{
    if own.len() == 0 {
        None
    } else if own[0].id == id {
        Some(own[0].status)
    } else {
        spec_ref_status(own.drop_first(), id)
    }
}

/// Whether a child is eligible to start: every id it depends on through the
/// blocking edges, directly or indirectly, is summarized as done.
pub open spec fn spec_eligible(es: Seq<EdgeView>, own: Seq<StepRefView>, id: Seq<char>) -> bool {
    forall|y: Seq<char>| reaches(es, id, y) ==> spec_ref_status(own, y) == Some(StepStatus::Done)
}

/// The eligibility recomputation: each waiting child whose blocking
/// dependencies are all done is promoted to `Todo`; everything else stays.
pub open spec fn spec_promote(es: Seq<EdgeView>, own: Seq<StepRefView>) -> Seq<StepRefView> {
    Seq::new(
        own.len(),
        |i: int|
            if own[i].status == StepStatus::Wait && spec_eligible(es, own, own[i].id) {
                StepRefView { id: own[i].id, status: StepStatus::Todo }
            } else {
                own[i]
            },
    )
}

/// Whether the FQID belongs to a child promoted by the recomputation over
/// the first `k` child summaries.
pub open spec fn spec_promoted_upto(
    es: Seq<EdgeView>,
    own: Seq<StepRefView>,
    pf: Seq<char>,
    f: Seq<char>,
    k: int,
) -> bool {
    exists|j: int|
        0 <= j < k && own[j].status == StepStatus::Wait && spec_eligible(
            es,
            own,
            #[trigger] own[j].id,
        ) && f == spec_child_fqid(pf, own[j].id)
}

/// Whether the FQID belongs to a promoted child.
pub open spec fn spec_child_promoted(
    es: Seq<EdgeView>,
    own: Seq<StepRefView>,
    pf: Seq<char>,
    f: Seq<char>,
) -> bool {
    spec_promoted_upto(es, own, pf, f, own.len() as int)
}

/// How the recomputation changes the store: a record of a promoted child
/// moves to `Todo`; every other record keeps its place and value.
pub open spec fn spec_promote_store(
    olds: Seq<StepView>,
    news: Seq<StepView>,
    pf: Seq<char>,
    es: Seq<EdgeView>,
    own: Seq<StepRefView>,
) -> bool {
    &&& news.len() == olds.len()
    &&& forall|i: int|
        0 <= i < olds.len() ==> #[trigger] news[i] == (
        if spec_child_promoted(es, own, pf, spec_step_fqid(olds[i])) {
            spec_with_status(olds[i], StepStatus::Todo)
        } else {
            olds[i]
        })
}

/// Build the dependency graph of the blocking links.
fn blocking_graph(links: &Vec<LinkDefinition>) -> (r: LinkGraph)
    ensures
        r@ == spec_blocking_edges(links@.map_values(|l: LinkDefinition| l@)),
{
    let ghost lviews = links@.map_values(|l: LinkDefinition| l@);
    let mut graph = LinkGraph::new();
    let n = links.len();
    let mut i: usize = 0;
    proof {
        assert(lviews.skip(0) =~= lviews);
    }
    while i < n
        invariant
            0 <= i <= n,
            n == links@.len(),
            lviews == links@.map_values(|l: LinkDefinition| l@),
            graph@ + spec_blocking_edges(lviews.skip(i as int)) == spec_blocking_edges(lviews),
        decreases n - i,
    {
        proof {
            assert(lviews.skip(i as int)[0] == lviews[i as int]);
            assert(lviews.skip(i as int).drop_first() =~= lviews.skip(i as int + 1));
        }
        let ghost prev = graph@;
        if links[i].is_blocking() {
            graph.add_edge(links[i].from.as_str(), links[i].to.as_str());
            proof {
                assert(graph@ =~= prev + seq![(lviews[i as int].from, lviews[i as int].to)]);
                assert(prev + spec_blocking_edges(lviews.skip(i as int)) =~= graph@
                    + spec_blocking_edges(lviews.skip(i as int + 1)));
            }
        } else {
            proof {
                assert(spec_blocking_edges(lviews.skip(i as int)) == spec_blocking_edges(
                    lviews.skip(i as int + 1),
                ));
            }
        }
        i = i + 1;
    }
    proof {
        assert(lviews.skip(n as int) =~= Seq::<LinkDefView>::empty());
        assert(spec_blocking_edges(Seq::<LinkDefView>::empty()) =~= Seq::<EdgeView>::empty());
        assert(graph@ =~= graph@ + Seq::<EdgeView>::empty());
    }
    graph
}

/// Find the cached status of a child summary.
fn find_ref_status(own: &Vec<StepRef>, id: &str) -> (r: Option<StepStatus>)
    ensures
        r == spec_ref_status(own@.map_values(|s: StepRef| s@), id@),
{
    let ghost ov = own@.map_values(|s: StepRef| s@);
    proof {
        assert(ov.skip(0) =~= ov);
    }
    let n = own.len();
    let mut i: usize = 0;
    while i < n
        invariant
            0 <= i <= n,
            n == own@.len(),
            ov == own@.map_values(|s: StepRef| s@),
            spec_ref_status(ov.skip(i as int), id@) == spec_ref_status(ov, id@),
        decreases n - i,
    {
        proof {
            assert(ov.skip(i as int)[0] == ov[i as int]);
            assert(ov.skip(i as int).drop_first() =~= ov.skip(i as int + 1));
        }
        if str_eq(own[i].id.as_str(), id) {
            return Some(own[i].status);
        }
        i = i + 1;
    }
    proof {
        assert(ov.skip(n as int) =~= Seq::<StepRefView>::empty());
    }
    None
}

/// Whether a child may start: all of its transitive blocking dependencies
/// are summarized as done.
fn step_eligible(graph: &LinkGraph, own: &Vec<StepRef>, id: &str) -> (r: bool)
    ensures
        r == spec_eligible(graph@, own@.map_values(|s: StepRef| s@), id@),
{
    let ghost es = graph@;
    let ghost ov = own@.map_values(|s: StepRef| s@);
    let deps = graph.get_dependencies(id);
    let n = deps.len();
    let mut i: usize = 0;
    while i < n
        invariant
            0 <= i <= n,
            n == deps@.len(),
            es == graph@,
            ov == own@.map_values(|s: StepRef| s@),
            forall|y: Seq<char>| #[trigger] crate::strutil::seq_views(deps@).contains(y)
                <==> reaches(es, id@, y),
            forall|j: int| 0 <= j < i ==> spec_ref_status(
                ov,
                #[trigger] crate::strutil::seq_views(deps@)[j],
            ) == Some(StepStatus::Done),
        decreases n - i,
    {
        match find_ref_status(own, deps[i].as_str()) {
            Some(StepStatus::Done) => {
                proof {
                    assert(crate::strutil::seq_views(deps@)[i as int] == deps@[i as int]@);
                }
            },
            _ => {
                proof {
                    assert(crate::strutil::seq_views(deps@)[i as int] == deps@[i as int]@);
                    assert(crate::strutil::seq_views(deps@).contains(
                        crate::strutil::seq_views(deps@)[i as int],
                    ));
                    assert(reaches(es, id@, deps@[i as int]@));
                }
                return false;
            },
        }
        i = i + 1;
    }
    proof {
        assert forall|y: Seq<char>| reaches(es, id@, y) implies spec_ref_status(ov, y) == Some(
            StepStatus::Done,
        ) by {
            assert(crate::strutil::seq_views(deps@).contains(y));
            let j = choose|j: int|
                0 <= j < deps@.len() && crate::strutil::seq_views(deps@)[j] == y;
        }
    }
    true
}

/// Recompute the eligibility of a parent's children: promote each waiting
/// child whose blocking dependencies are all done to `Todo`, in the cached
/// summaries and in the children's own records.
fn update_sub_step_statuses(storage: &mut Storage, parent: &mut Step, links: &Vec<LinkDefinition>)
    requires
        spec_store_wf(old(storage)@),
    ensures
        spec_store_wf(final(storage)@),
        final(parent)@ == (StepView {
            own_steps: spec_promote(
                spec_blocking_edges(links@.map_values(|l: LinkDefinition| l@)),
                old(parent)@.own_steps,
            ),
            ..old(parent)@
        }),
        spec_promote_store(
            old(storage)@,
            final(storage)@,
            spec_step_fqid(old(parent)@),
            spec_blocking_edges(links@.map_values(|l: LinkDefinition| l@)),
            old(parent)@.own_steps,
        ),
{
    let graph = blocking_graph(links);
    let ghost es = graph@;
    let ghost ov = parent.own_steps@.map_values(|s: StepRef| s@);
    let ghost olds = storage@;
    let ghost pf = spec_step_fqid(parent@);
    let parent_fqid_own: String = String::from_str(parent.fqid());
    let parent_fqid: &str = parent_fqid_own.as_str();
    let own_len = parent.own_steps.len();
    let mut new_own: Vec<StepRef> = Vec::new();
    let mut k: usize = 0;
    while k < own_len
        invariant
            0 <= k <= own_len,
            own_len == parent.own_steps@.len(),
            es == graph@,
            parent_fqid@ == pf,
            ov == parent.own_steps@.map_values(|s: StepRef| s@),
            spec_store_wf(storage@),
            new_own@.len() == k,
            forall|i: int| 0 <= i < k ==> #[trigger] new_own@[i]@ == spec_promote(es, ov)[i],
            storage@.len() == olds.len(),
            forall|i: int| 0 <= i < olds.len() ==> spec_step_fqid(#[trigger] storage@[i])
                == spec_step_fqid(olds[i]),
            forall|i: int|
                0 <= i < olds.len() ==> #[trigger] storage@[i] == (
                if spec_promoted_upto(es, ov, pf, spec_step_fqid(olds[i]), k as int) {
                    spec_with_status(olds[i], StepStatus::Todo)
                } else {
                    olds[i]
                }),
        decreases own_len - k,
    {
        let is_wait = matches!(parent.own_steps[k].status, StepStatus::Wait);
        let mut promoted = false;
        if is_wait {
            if step_eligible(&graph, &parent.own_steps, parent.own_steps[k].id.as_str()) {
                promoted = true;
            }
        }
        proof {
            assert(ov[k as int] == parent.own_steps@[k as int]@);
        }
        if promoted {
            new_own.push(
                StepRef { id: parent.own_steps[k].id.clone(), status: StepStatus::Todo },
            );
            // move the child's own record to `Todo` as well
            let sub_fqid = child_fqid(parent_fqid, parent.own_steps[k].id.as_str());
            let ghost pre = storage@;
            match storage.read_step(sub_fqid.as_str()) {
                Ok(mut sub_step) => {
                    sub_step.attr.status = StepStatus::Todo;
                    proof {
                        lemma_store_idx_props(pre, sub_fqid@);
                        assert(spec_step_fqid(sub_step@) == sub_fqid@);
                    }
                    storage.write_step(&sub_step);
                    proof {
                        lemma_store_update(pre, sub_fqid@, sub_step@);
                        let p = spec_store_idx(pre, sub_fqid@);
                        assert(storage@ =~= pre.update(p, sub_step@));
                        assert forall|i: int| 0 <= i < olds.len() implies #[trigger] storage@[i]
                            == (if spec_promoted_upto(
                            es,
                            ov,
                            pf,
                            spec_step_fqid(olds[i]),
                            k as int + 1,
                        ) {
                            spec_with_status(olds[i], StepStatus::Todo)
                        } else {
                            olds[i]
                        }) by {
                            if i == p {
                                assert(spec_step_fqid(olds[i]) == sub_fqid@);
                                assert(spec_promoted_upto(
                                    es,
                                    ov,
                                    pf,
                                    spec_step_fqid(olds[i]),
                                    k as int + 1,
                                )) by {
                                    assert(ov[k as int].id == parent.own_steps@[k as int]@.id);
                                }
                            } else {
                                assert(storage@[i] == pre[i]);
                                if spec_promoted_upto(
                                    es,
                                    ov,
                                    pf,
                                    spec_step_fqid(olds[i]),
                                    k as int + 1,
                                ) && !spec_promoted_upto(
                                    es,
                                    ov,
                                    pf,
                                    spec_step_fqid(olds[i]),
                                    k as int,
                                ) {
                                    // the new witness is child k, whose record
                                    // sits at position p
                                    assert(spec_step_fqid(olds[i]) == sub_fqid@);
                                    assert(spec_step_fqid(pre[i]) == spec_step_fqid(olds[i]));
                                    assert(spec_step_fqid(pre[p]) == sub_fqid@);
                                    assert(false);
                                }
                            }
                        }
                    }
                },
                Err(_) => {
                    proof {
                        lemma_store_idx_props(pre, sub_fqid@);
                        assert forall|i: int| 0 <= i < olds.len() implies #[trigger] storage@[i]
                            == (if spec_promoted_upto(
                            es,
                            ov,
                            pf,
                            spec_step_fqid(olds[i]),
                            k as int + 1,
                        ) {
                            spec_with_status(olds[i], StepStatus::Todo)
                        } else {
                            olds[i]
                        }) by {
                            if spec_promoted_upto(
                                es,
                                ov,
                                pf,
                                spec_step_fqid(olds[i]),
                                k as int + 1,
                            ) && !spec_promoted_upto(es, ov, pf, spec_step_fqid(olds[i]), k as int)
                            {
                                assert(spec_step_fqid(olds[i]) == sub_fqid@);
                                assert(spec_step_fqid(storage@[i]) == spec_step_fqid(olds[i]));
                                assert(spec_has_step(storage@, sub_fqid@)) by {
                                    crate::store::lemma_store_idx_at_exists(storage@, sub_fqid@, i);
                                }
                                assert(false);
                            }
                        }
                    }
                },
            }
        } else {
            new_own.push(parent.own_steps[k].clone());
            proof {
                assert forall|i: int| 0 <= i < olds.len() implies #[trigger] storage@[i] == (
                if spec_promoted_upto(es, ov, pf, spec_step_fqid(olds[i]), k as int + 1) {
                    spec_with_status(olds[i], StepStatus::Todo)
                } else {
                    olds[i]
                }) by {
                    if spec_promoted_upto(es, ov, pf, spec_step_fqid(olds[i]), k as int + 1)
                        && !spec_promoted_upto(es, ov, pf, spec_step_fqid(olds[i]), k as int) {
                        assert(ov[k as int].status == StepStatus::Wait && spec_eligible(
                            es,
                            ov,
                            ov[k as int].id,
                        ));
                        assert(false);
                    }
                }
            }
        }
        k = k + 1;
    }
    parent.own_steps = new_own;
    proof {
        assert(parent@.own_steps =~= spec_promote(es, ov));
        assert(final(parent)@ == (StepView { own_steps: spec_promote(es, ov), ..old(parent)@ }));
    }
}


/// Writing a record to a store: replace the record under the same FQID, or
/// append a new one.
pub open spec fn spec_store_write(store: Seq<StepView>, s: StepView) -> Seq<StepView> {
    if spec_has_step(store, spec_step_fqid(s)) {
        store.update(spec_store_idx(store, spec_step_fqid(s)), s)
    } else {
        store.push(s)
    }
}

/// The eligibility recomputation applied to a store: records of promoted
/// children move to `Todo`, everything else stays.
pub open spec fn spec_apply_promote(
    olds: Seq<StepView>,
    pf: Seq<char>,
    es: Seq<EdgeView>,
    own: Seq<StepRefView>,
) -> Seq<StepView> {
    Seq::new(
        olds.len(),
        |i: int|
            if spec_child_promoted(es, own, pf, spec_step_fqid(olds[i])) {
                spec_with_status(olds[i], StepStatus::Todo)
            } else {
                olds[i]
            },
    )
}

/// The child summaries with the given child marked done.
pub open spec fn spec_mark_done(own: Seq<StepRefView>, id: Seq<char>) -> Seq<StepRefView> {
    Seq::new(
        own.len(),
        |i: int|
            if own[i].id == id {
                StepRefView { id: own[i].id, status: StepStatus::Done }
            } else {
                own[i]
            },
    )
}

/// Whether every child summary is done.
pub open spec fn spec_all_done(own: Seq<StepRefView>) -> bool {
    forall|i: int| 0 <= i < own.len() ==> #[trigger] own[i].status == StepStatus::Done
}

/// The record of a finished step: outputs appended and status `Done`.
pub open spec fn spec_finished(s: StepView, outs: Seq<ParameterValueView>) -> StepView {
    StepView {
        attr: (AttrsView { status: StepStatus::Done, ..s.attr }),
        output: s.output + outs,
        ..s
    }
}

/// How finishing a child updates its parent's record and siblings: the
/// parent's summary of the child moves to done, waiting siblings whose
/// blocking dependencies are now all done are promoted, and a parent whose
/// children are all done becomes done itself. A finished child of the
/// implicit root, or one whose parent has no definition or no record,
/// changes nothing further.
pub open spec fn spec_parent_update(
    cfg: ProcessConfigView,
    mid: Seq<StepView>,
    f: Seq<char>,
    child_id: Seq<char>,
) -> Seq<StepView> {
    match spec_parent_fqid(f) {
        None => mid,
        Some(pf) => if pf == ROOT_FQID@ {
            mid
        } else {
            match spec_find_def(cfg, pf) {
                None => mid,
                Some(pd) => if !spec_has_step(mid, pf) {
                    mid
                } else {
                    let par = spec_step_at(mid, pf);
                    let es = spec_blocking_edges(pd.links);
                    let own1 = spec_mark_done(par.own_steps, child_id);
                    let own2 = spec_promote(es, own1);
                    let mid2 = spec_apply_promote(mid, pf, es, own1);
                    let pstat = if spec_all_done(own2) {
                        StepStatus::Done
                    } else {
                        par.attr.status
                    };
                    let pfin = StepView {
                        attr: (AttrsView { status: pstat, ..par.attr }),
                        own_steps: own2,
                        ..par
                    };
                    spec_store_write(mid2, pfin)
                },
            }
        },
    }
}

/// Mark one child done in a list of child summaries.
fn mark_own_done(own: &Vec<StepRef>, id: &str) -> (r: Vec<StepRef>)
    ensures
        r@.map_values(|s: StepRef| s@) == spec_mark_done(own@.map_values(|s: StepRef| s@), id@),
{
    let ghost ov = own@.map_values(|s: StepRef| s@);
    let n = own.len();
    let mut out: Vec<StepRef> = Vec::new();
    let mut i: usize = 0;
    while i < n
        invariant
            0 <= i <= n,
            n == own@.len(),
            ov == own@.map_values(|s: StepRef| s@),
            out@.len() == i,
            forall|j: int| 0 <= j < i ==> #[trigger] out@[j]@ == spec_mark_done(ov, id@)[j],
        decreases n - i,
    {
        if str_eq(own[i].id.as_str(), id) {
            out.push(StepRef { id: own[i].id.clone(), status: StepStatus::Done });
        } else {
            out.push(own[i].clone());
        }
        i = i + 1;
    }
    proof {
        assert(out@.map_values(|s: StepRef| s@) =~= spec_mark_done(ov, id@));
    }
    out
}

/// Whether every child summary is done.
fn own_all_done(own: &Vec<StepRef>) -> (r: bool)
    ensures
        r == spec_all_done(own@.map_values(|s: StepRef| s@)),
{
    let ghost ov = own@.map_values(|s: StepRef| s@);
    let n = own.len();
    let mut i: usize = 0;
    while i < n
        invariant
            0 <= i <= n,
            n == own@.len(),
            ov == own@.map_values(|s: StepRef| s@),
            forall|j: int| 0 <= j < i ==> #[trigger] ov[j].status == StepStatus::Done,
        decreases n - i,
    {
        if !matches!(own[i].status, StepStatus::Done) {
            proof {
                assert(ov[i as int].status != StepStatus::Done);
            }
            return false;
        }
        i = i + 1;
    }
    true
}

/// Apply the parent-side consequences of a finished child.
fn update_parent_after_step_done(config: &ProcessConfig, storage: &mut Storage, child: &Step)
    requires
        spec_store_wf(old(storage)@),
    ensures
        spec_store_wf(final(storage)@),
        final(storage)@ == spec_parent_update(
            config@,
            old(storage)@,
            spec_step_fqid(child@),
            child@.attr.id,
        ),
{
    let ghost mid = storage@;
    let ghost f = spec_step_fqid(child@);
    let pf_owned = match parent_fqid(child.fqid()) {
        None => {
            return ;
        },
        Some(p) => p,
    };
    if crate::fqid::is_root_fqid(pf_owned.as_str()) {
        return ;
    }
    let parent_def = match config.find_step_definition(pf_owned.as_str()) {
        None => {
            return ;
        },
        Some(d) => d,
    };
    let mut parent_step = match storage.read_step(pf_owned.as_str()) {
        Err(_) => {
            return ;
        },
        Ok(p) => p,
    };
    let ghost pf = pf_owned@;
    let ghost par = spec_step_at(mid, pf);
    let ghost es = spec_blocking_edges(parent_def@.links);
    let ghost own1 = spec_mark_done(par.own_steps, child@.attr.id);
    // mark the finished child done in the parent's summaries
    let marked = mark_own_done(&parent_step.own_steps, child.attr.id.as_str());
    parent_step.own_steps = marked;
    proof {
        assert(parent_step@ == (StepView { own_steps: own1, ..par }));
        assert(spec_step_fqid(parent_step@) == pf) by {
            lemma_store_idx_props(mid, pf);
        }
    }
    // promote any siblings whose blocking dependencies are now all done
    update_sub_step_statuses(storage, &mut parent_step, &parent_def.links);
    let ghost mid2 = spec_apply_promote(mid, pf, es, own1);
    proof {
        assert(storage@ =~= mid2);
        assert(parent_step@ == (StepView { own_steps: spec_promote(es, own1), ..par }));
    }
    // a parent whose children are all done is itself done
    if own_all_done(&parent_step.own_steps) {
        parent_step.attr.status = StepStatus::Done;
    }
    let ghost pfin = parent_step@;
    proof {
        assert(spec_step_fqid(parent_step@) == pf);
    }
    let ghost pre = storage@;
    storage.write_step(&parent_step);
    proof {
        assert(storage@ == spec_store_write(pre, pfin));
        let own2 = spec_promote(es, own1);
        let pstat = if spec_all_done(own2) {
            StepStatus::Done
        } else {
            par.attr.status
        };
        assert(pfin == (StepView {
            attr: (AttrsView { status: pstat, ..par.attr }),
            own_steps: own2,
            ..par
        }));
    }
}


/// Whether a step record with the given FQID exists and is done.
pub open spec fn spec_dep_done(store: Seq<StepView>, dep_fqid: Seq<char>) -> bool {
    spec_has_step(store, dep_fqid) && spec_step_at(store, dep_fqid).attr.status
        == StepStatus::Done
}

/// The unmet blocking dependencies of one step under its parent: the targets
/// of blocking links from the step's id, in declaration order, whose records
/// under the parent are not done.
pub open spec fn spec_unmet_deps(
    store: Seq<StepView>,
    pf: Seq<char>,
    links: Seq<LinkDefView>,
    sid: Seq<char>,
) -> Seq<Seq<char>>
    decreases links.len(),
{
    if links.len() == 0 {
        Seq::empty()
    } else {
        let tail = spec_unmet_deps(store, pf, links.drop_first(), sid);
        let l = links[0];
        if l.from == sid && spec_is_blocking_type(l.link_type) && !spec_dep_done(
            store,
            spec_child_fqid(pf, l.to),
        ) {
            seq![l.to] + tail
        } else {
            tail
        }
    }
}

/// Whether some scope parameter with the given id holds a value.
pub open spec fn spec_has_valued(sp: Seq<ParameterValueView>, id: Seq<char>) -> bool {
    exists|k: int| 0 <= k < sp.len() && sp[k].id == id && sp[k].value is Some
}

/// Whether every required scope parameter reference is satisfied by a
/// valued scope parameter.
pub open spec fn spec_scope_satisfied(
    refs: Seq<ParameterRefView>,
    sp: Seq<ParameterValueView>,
) -> bool {
    forall|i: int|
        0 <= i < refs.len() && spec_ref_required(#[trigger] refs[i]) ==> spec_has_valued(
            sp,
            refs[i].id,
        )
}

/// A freshly constructed step record: attributes from the definition under
/// the given parent, the given scope parameters and status, and no other
/// data yet.
pub open spec fn spec_new_step(
    d: DefView,
    p: Option<Seq<char>>,
    sp: Seq<ParameterValueView>,
    st: StepStatus,
) -> StepView {
    StepView {
        attr: (AttrsView {
            id: d.id,
            fqid: Some(spec_fqid_for(d.id, p)),
            classification: d.classification,
            purpose: d.purpose,
            expectations: d.expectations,
            status: st,
        }),
        input: Seq::empty(),
        scope: sp,
        output: Seq::empty(),
        parent: Seq::empty(),
        own_steps: Seq::empty(),
        links: Seq::empty(),
    }
}

/// The waiting record a sub-definition's child starts from.
pub open spec fn spec_wait_child(sub: DefView, pf: Seq<char>) -> StepView {
    spec_new_step(sub, Some(pf), Seq::empty(), StepStatus::Wait)
}

/// One waiting child summary per sub-definition.
pub open spec fn spec_wait_refs(steps: Seq<DefView>) -> Seq<StepRefView> {
    Seq::new(steps.len(), |i: int| StepRefView { id: steps[i].id, status: StepStatus::Wait })
}

/// The store after writing one fresh waiting child per sub-definition, in
/// declaration order.
pub open spec fn spec_write_children(
    store: Seq<StepView>,
    pf: Seq<char>,
    steps: Seq<DefView>,
) -> Seq<StepView>
    decreases steps.len(),
{
    if steps.len() == 0 {
        store
    } else {
        spec_write_children(
            spec_store_write(store, spec_wait_child(steps[0], pf)),
            pf,
            steps.drop_first(),
        )
    }
}

/// Writing children for one more sub-definition writes that child last.
proof fn lemma_write_children_push(
    store: Seq<StepView>,
    pf: Seq<char>,
    steps: Seq<DefView>,
    x: DefView,
)
    ensures
        spec_write_children(store, pf, steps.push(x)) == spec_store_write(
            spec_write_children(store, pf, steps),
            spec_wait_child(x, pf),
        ),
    decreases steps.len(),
{
    if steps.len() == 0 {
        assert(steps.push(x)[0] == x);
        assert(steps.push(x).drop_first() =~= Seq::<DefView>::empty());
        assert(spec_write_children(
            spec_store_write(store, spec_wait_child(x, pf)),
            pf,
            Seq::<DefView>::empty(),
        ) == spec_store_write(store, spec_wait_child(x, pf)));
    } else {
        assert(steps.push(x)[0] == steps[0]);
        assert(steps.push(x).drop_first() =~= steps.drop_first().push(x));
        assert(spec_write_children(store, pf, steps.push(x)) == spec_write_children(
            spec_store_write(store, spec_wait_child(steps[0], pf)),
            pf,
            steps.drop_first().push(x),
        ));
        lemma_write_children_push(
            spec_store_write(store, spec_wait_child(steps[0], pf)),
            pf,
            steps.drop_first(),
            x,
        );
    }
}

/// The step record a successful initialization returns: fresh from the
/// definition, `Todo` exactly when every required scope parameter has a
/// value, with one child summary per sub-definition after the eligibility
/// recomputation.
pub open spec fn spec_init_result(
    d: DefView,
    p: Option<Seq<char>>,
    sp: Seq<ParameterValueView>,
) -> StepView {
    let st0 = if spec_scope_satisfied(d.scope, sp) {
        StepStatus::Todo
    } else {
        StepStatus::Wait
    };
    let base = spec_new_step(d, p, sp, st0);
    if d.steps.len() == 0 {
        base
    } else {
        StepView {
            own_steps: spec_promote(spec_blocking_edges(d.links), spec_wait_refs(d.steps)),
            ..base
        }
    }
}

/// The store a successful initialization leaves behind: fresh waiting
/// children written first, then promoted where eligible, then the
/// initialized step itself.
pub open spec fn spec_init_store(
    d: DefView,
    p: Option<Seq<char>>,
    sp: Seq<ParameterValueView>,
    olds: Seq<StepView>,
) -> Seq<StepView> {
    let result = spec_init_result(d, p, sp);
    if d.steps.len() == 0 {
        spec_store_write(olds, result)
    } else {
        let f2 = spec_step_fqid(result);
        let own0 = spec_wait_refs(d.steps);
        let es = spec_blocking_edges(d.links);
        spec_store_write(
            spec_apply_promote(spec_write_children(olds, f2, d.steps), f2, es, own0),
            result,
        )
    }
}

/// Collect the unmet blocking dependencies of one step under its parent.
fn collect_unmet(
    storage: &Storage,
    pf: &str,
    links: &Vec<LinkDefinition>,
    sid: &str,
) -> (r: Vec<String>)
    ensures
        crate::strutil::seq_views(r@) == spec_unmet_deps(
            storage@,
            pf@,
            links@.map_values(|l: LinkDefinition| l@),
            sid@,
        ),
{
    let ghost lviews = links@.map_values(|l: LinkDefinition| l@);
    let ghost store = storage@;
    let mut unmet: Vec<String> = Vec::new();
    let n = links.len();
    let mut i: usize = 0;
    proof {
        assert(lviews.skip(0) =~= lviews);
        assert(crate::strutil::seq_views(unmet@) =~= Seq::<Seq<char>>::empty());
    }
    while i < n
        invariant
            0 <= i <= n,
            n == links@.len(),
            store == storage@,
            lviews == links@.map_values(|l: LinkDefinition| l@),
            crate::strutil::seq_views(unmet@) + spec_unmet_deps(
                store,
                pf@,
                lviews.skip(i as int),
                sid@,
            ) == spec_unmet_deps(store, pf@, lviews, sid@),
        decreases n - i,
    {
        proof {
            assert(lviews.skip(i as int)[0] == lviews[i as int]);
            assert(lviews.skip(i as int).drop_first() =~= lviews.skip(i as int + 1));
        }
        let ghost pre = crate::strutil::seq_views(unmet@);
        if str_eq(links[i].from.as_str(), sid) && links[i].is_blocking() {
            let dep_fqid = child_fqid(pf, links[i].to.as_str());
            let done = match storage.read_step(dep_fqid.as_str()) {
                Ok(dep_step) => matches!(dep_step.status(), StepStatus::Done),
                Err(_) => false,
            };
            proof {
                assert(done == spec_dep_done(store, spec_child_fqid(pf@, lviews[i as int].to)));
            }
            if !done {
                unmet.push(links[i].to.clone());
                proof {
                    crate::strutil::lemma_views_push(
                        unmet@.drop_last(),
                        unmet@.last(),
                    );
                    assert(unmet@.drop_last().push(unmet@.last()) =~= unmet@);
                    assert(crate::strutil::seq_views(unmet@) =~= pre.push(
                        lviews[i as int].to,
                    ));
                    assert(pre.push(lviews[i as int].to) + spec_unmet_deps(
                        store,
                        pf@,
                        lviews.skip(i as int + 1),
                        sid@,
                    ) =~= pre + spec_unmet_deps(store, pf@, lviews.skip(i as int), sid@));
                }
            }
        }
        i = i + 1;
    }
    proof {
        assert(lviews.skip(n as int) =~= Seq::<LinkDefView>::empty());
        assert(crate::strutil::seq_views(unmet@) + Seq::<Seq<char>>::empty() =~= crate::strutil::seq_views(unmet@));
    }
    unmet
}

/// Whether some scope parameter with the given id holds a value.
pub fn has_valued_param(sp: &Vec<ParameterValue>, id: &str) -> (r: bool)
    ensures
        r == spec_has_valued(sp@.map_values(|p: ParameterValue| p@), id@),
{
    let ghost spv = sp@.map_values(|p: ParameterValue| p@);
    let n = sp.len();
    let mut i: usize = 0;
    while i < n
        invariant
            0 <= i <= n,
            n == sp@.len(),
            spv == sp@.map_values(|p: ParameterValue| p@),
            forall|k: int| 0 <= k < i ==> !(#[trigger] spv[k].id == id@ && spv[k].value is Some),
        decreases n - i,
    {
        if str_eq(sp[i].id.as_str(), id) && sp[i].value.is_some() {
            proof {
                assert(spv[i as int].id == id@ && spv[i as int].value is Some);
            }
            return true;
        }
        i = i + 1;
    }
    false
}

/// Whether every required scope parameter reference is satisfied.
fn scope_satisfied(refs: &Vec<ParameterRef>, sp: &Vec<ParameterValue>) -> (r: bool)
    ensures
        r == spec_scope_satisfied(
            refs@.map_values(|p: ParameterRef| p@),
            sp@.map_values(|p: ParameterValue| p@),
        ),
{
    let ghost rv = refs@.map_values(|p: ParameterRef| p@);
    let ghost spv = sp@.map_values(|p: ParameterValue| p@);
    let n = refs.len();
    let mut i: usize = 0;
    while i < n
        invariant
            0 <= i <= n,
            n == refs@.len(),
            rv == refs@.map_values(|p: ParameterRef| p@),
            spv == sp@.map_values(|p: ParameterValue| p@),
            forall|k: int| 0 <= k < i && spec_ref_required(#[trigger] rv[k]) ==> spec_has_valued(
                spv,
                rv[k].id,
            ),
        decreases n - i,
    {
        let required = match refs[i].is_required {
            Some(b) => b,
            None => false,
        };
        if required {
            if !has_valued_param(sp, refs[i].id.as_str()) {
                proof {
                    assert(spec_ref_required(rv[i as int]));
                    assert(!spec_has_valued(spv, rv[i as int].id));
                }
                return false;
            }
        }
        i = i + 1;
    }
    true
}

/// Create one waiting child record per sub-definition, register each in the
/// parent's child summaries, and promote the children that may start.
fn init_process_iteration(storage: &mut Storage, step: &mut Step, def: &StepDefinition)
    requires
        spec_store_wf(old(storage)@),
        old(step)@.own_steps.len() == 0,
    ensures
        spec_store_wf(final(storage)@),
        final(step)@ == (StepView {
            own_steps: spec_promote(
                spec_blocking_edges(def@.links),
                spec_wait_refs(def@.steps),
            ),
            ..old(step)@
        }),
        final(storage)@ == spec_apply_promote(
            spec_write_children(old(storage)@, spec_step_fqid(old(step)@), def@.steps),
            spec_step_fqid(old(step)@),
            spec_blocking_edges(def@.links),
            spec_wait_refs(def@.steps),
        ),
{
    let ghost olds = storage@;
    let ghost fq = spec_step_fqid(step@);
    let ghost dsteps = def@.steps;
    let fq_owned = String::from_str(step.fqid());
    proof {
        crate::step::lemma_def_views_index(def.steps@);
    }
    let n = def.steps.len();
    let mut k: usize = 0;
    while k < n
        invariant
            0 <= k <= n,
            n == def.steps@.len(),
            fq_owned@ == fq,
            dsteps == def@.steps,
            dsteps.len() == def.steps@.len(),
            forall|i: int| 0 <= i < def.steps@.len() ==> #[trigger] def.steps@[i]@ == dsteps[i],
            spec_store_wf(storage@),
            storage@ == spec_write_children(olds, fq, dsteps.take(k as int)),
            step.own_steps@.len() == k,
            forall|i: int| 0 <= i < k ==> #[trigger] step.own_steps@[i]@ == spec_wait_refs(
                dsteps,
            )[i],
            step@.attr == old(step)@.attr,
            step@.input == old(step)@.input,
            step@.scope == old(step)@.scope,
            step@.output == old(step)@.output,
            step@.parent == old(step)@.parent,
            step@.links == old(step)@.links,
        decreases n - k,
    {
        let sub_step = Step::from_definition(&def.steps[k], Some(fq_owned.as_str()));
        proof {
            assert(sub_step@.input =~= Seq::<ParameterValueView>::empty());
            assert(sub_step@.scope =~= Seq::<ParameterValueView>::empty());
            assert(sub_step@.output =~= Seq::<ParameterValueView>::empty());
            assert(sub_step@.parent =~= Seq::<crate::step::ParentRefView>::empty());
            assert(sub_step@.own_steps =~= Seq::<StepRefView>::empty());
            assert(sub_step@.links =~= Seq::<crate::step::LinkRefView>::empty());
            assert(sub_step@ == spec_wait_child(dsteps[k as int], fq));
        }
        step.own_steps.push(
            StepRef { id: def.steps[k].id.clone(), status: StepStatus::Wait },
        );
        let ghost pre = storage@;
        storage.write_step(&sub_step);
        proof {
            assert(storage@ == spec_store_write(pre, sub_step@));
            lemma_write_children_push(olds, fq, dsteps.take(k as int), dsteps[k as int]);
            assert(dsteps.take(k as int).push(dsteps[k as int]) =~= dsteps.take(k as int + 1));
        }
        k = k + 1;
    }
    proof {
        assert(dsteps.take(n as int) =~= dsteps);
        assert(step@.own_steps =~= spec_wait_refs(dsteps));
    }
    let ghost mid = storage@;
    update_sub_step_statuses(storage, step, &def.links);
    proof {
        assert(storage@ =~= spec_apply_promote(
            mid,
            fq,
            spec_blocking_edges(def@.links),
            spec_wait_refs(dsteps),
        ));
    }
}


/// Status tree for displaying project state: the definition hierarchy
/// annotated with each step's live status.
#[derive(Debug)]
pub struct StatusTree {
    pub id: String,
    pub fqid: String,
    pub purpose: Option<String>,
    pub status: StepStatus,
    pub children: Vec<StatusTree>,
}

/// The mathematical model of a status tree.
pub struct TreeView {
    pub id: Seq<char>,
    pub fqid: Seq<char>,
    pub purpose: Option<Seq<char>>,
    pub status: StepStatus,
    pub children: Seq<TreeView>,
}

/// The view of a status tree, down through all of its children.
pub open spec fn tree_view(t: StatusTree) -> TreeView
    decreases t,
    via tree_view_decreases
{
    TreeView {
        id: t.id@,
        fqid: t.fqid@,
        purpose: crate::strutil::opt_view(t.purpose),
        status: t.status,
        children: tree_views(t.children@),
    }
}

#[via_fn]
proof fn tree_view_decreases(t: StatusTree) {
    assert(decreases_to!(t => t.children));
    assert(decreases_to!(t.children => t.children@));
}

/// The views of a sequence of status trees.
pub open spec fn tree_views(ts: Seq<StatusTree>) -> Seq<TreeView>
    decreases ts,
{
    if ts.len() == 0 {
        Seq::empty()
    } else {
        seq![tree_view(ts[0])] + tree_views(ts.drop_first())
    }
}

/// A sequence of tree views holds, position by position, the view of each
/// tree.
pub proof fn lemma_tree_views_index(ts: Seq<StatusTree>)
    ensures
        tree_views(ts).len() == ts.len(),
        forall|i: int| 0 <= i < ts.len() ==> tree_views(ts)[i] == tree_view(ts[i]),
    decreases ts,
{
    if ts.len() > 0 {
        lemma_tree_views_index(ts.drop_first());
        assert forall|i: int| 0 <= i < ts.len() implies tree_views(ts)[i] == tree_view(
            ts[i],
        ) by {
            if i > 0 {
                assert(tree_views(ts)[i] == tree_views(ts.drop_first())[i - 1]);
                assert(ts.drop_first()[i - 1] == ts[i]);
            }
        }
    }
}

impl View for StatusTree {
    type V = TreeView;

    open spec fn view(&self) -> TreeView {
        tree_view(*self)
    }
}

/// The live status a definition's step shows: the persisted status, or
/// `Wait` where no record exists yet.
pub open spec fn spec_status_of(store: Seq<StepView>, fqid: Seq<char>) -> StepStatus {
    if spec_has_step(store, fqid) {
        spec_step_at(store, fqid).attr.status
    } else {
        StepStatus::Wait
    }
}

/// The status tree of one definition: its FQID under the given parent, its
/// live status, and one child tree per sub-definition.
pub open spec fn spec_build_tree(
    store: Seq<StepView>,
    d: DefView,
    parent: Option<Seq<char>>,
) -> TreeView
    decreases d,
    via spec_build_tree_decreases
{
    let fq = match parent {
        None => ROOT_FQID@,
        Some(p) => spec_child_fqid(p, d.id),
    };
    TreeView {
        id: d.id,
        fqid: fq,
        purpose: d.purpose,
        status: spec_status_of(store, fq),
        children: spec_build_trees(store, d.steps, fq),
    }
}

#[via_fn]
proof fn spec_build_tree_decreases(store: Seq<StepView>, d: DefView, parent: Option<Seq<char>>) {
    assert(decreases_to!(d => d.steps));
}

/// The status trees of a sequence of sub-definitions under one parent.
pub open spec fn spec_build_trees(
    store: Seq<StepView>,
    steps: Seq<DefView>,
    parent: Seq<char>,
) -> Seq<TreeView>
    decreases steps,
{
    if steps.len() == 0 {
        Seq::empty()
    } else {
        seq![spec_build_tree(store, steps[0], Some(parent))] + spec_build_trees(
            store,
            steps.drop_first(),
            parent,
        )
    }
}

/// A sequence of built trees holds, position by position, the tree of each
/// sub-definition.
pub proof fn lemma_build_trees_index(store: Seq<StepView>, steps: Seq<DefView>, parent: Seq<char>)
    ensures
        spec_build_trees(store, steps, parent).len() == steps.len(),
        forall|i: int| 0 <= i < steps.len() ==> spec_build_trees(store, steps, parent)[i]
            == spec_build_tree(store, steps[i], Some(parent)),
    decreases steps,
{
    if steps.len() > 0 {
        lemma_build_trees_index(store, steps.drop_first(), parent);
        assert forall|i: int| 0 <= i < steps.len() implies spec_build_trees(
            store,
            steps,
            parent,
        )[i] == spec_build_tree(store, steps[i], Some(parent)) by {
            if i > 0 {
                assert(spec_build_trees(store, steps, parent)[i] == spec_build_trees(
                    store,
                    steps.drop_first(),
                    parent,
                )[i - 1]);
                assert(steps.drop_first()[i - 1] == steps[i]);
            }
        }
    }
}

/// Build the status tree of one definition against the store.
#[verifier::loop_isolation(false)]
fn build_status_tree(storage: &Storage, def: &StepDefinition, parent: Option<&str>) -> (r:
    StatusTree)
    ensures
        r@ == spec_build_tree(storage@, def@, match parent {
            Some(p) => Some(p@),
            None => None,
        }),
    decreases *def,
{
    proof {
        crate::step::lemma_def_views_index(def.steps@);
    }
    let fq: String = match parent {
        None => String::from_str(ROOT_FQID),
        Some(p) => child_fqid(p, def.id.as_str()),
    };
    let status = match storage.read_step(fq.as_str()) {
        Ok(st) => st.status(),
        Err(_) => StepStatus::Wait,
    };
    let n = def.steps.len();
    let mut children: Vec<StatusTree> = Vec::new();
    let mut i: usize = 0;
    while i < n
        invariant
            0 <= i <= n,
            children@.len() == i,
            forall|j: int| 0 <= j < i ==> #[trigger] children@[j]@ == spec_build_tree(
                storage@,
                def@.steps[j],
                Some(fq@),
            ),
        decreases n - i,
    {
        proof {
            assert(decreases_to!(*def => def.steps@[i as int]));
        }
        let child = build_status_tree(storage, &def.steps[i], Some(fq.as_str()));
        children.push(child);
        i = i + 1;
    }
    let r = StatusTree {
        id: def.id.clone(),
        fqid: fq,
        purpose: crate::strutil::clone_opt_string(&def.purpose),
        status,
        children,
    };
    proof {
        lemma_tree_views_index(r.children@);
        lemma_build_trees_index(storage@, def@.steps, r.fqid@);
        assert(r@.children == tree_views(r.children@));
        assert forall|j: int| 0 <= j < r.children@.len() implies r@.children[j]
            == spec_build_trees(storage@, def@.steps, r.fqid@)[j] by {
            assert(r@.children[j] == tree_view(r.children@[j]));
            assert(r.children@[j]@ == spec_build_tree(storage@, def@.steps[j], Some(r.fqid@)));
        }
        assert(r@.children =~= spec_build_trees(storage@, def@.steps, r.fqid@));
    }
    r
}

/// Action type of a recommendation.
#[derive(Debug, Clone, Copy, PartialEq, Eq, Structural)]
pub enum ActionType {
    Init,
    Start,
    Finish,
    Review,
}

/// Next action recommendation.
#[derive(Debug)]
pub struct NextAction {
    pub fqid: String,
    pub action_type: ActionType,
    pub description: String,
}

/// The mathematical model of a next action.
pub struct NextActionView {
    pub fqid: Seq<char>,
    pub action_type: ActionType,
    pub description: Seq<char>,
}

impl View for NextAction {
    type V = NextActionView;

    open spec fn view(&self) -> NextActionView {
        NextActionView {
            fqid: self.fqid@,
            action_type: self.action_type,
            description: self.description@,
        }
    }
}

/// The start recommendation for one tree node.
pub open spec fn spec_start_action(t: TreeView) -> NextActionView {
    NextActionView {
        fqid: t.fqid,
        action_type: ActionType::Start,
        description: "Start: "@ + (match t.purpose {
            Some(p) => p,
            None => t.id,
        }),
    }
}

/// The recommendations a tree yields: a node in `Todo` recommends being
/// started; every other node contributes only through its children, in
/// order.
pub open spec fn spec_next_actions(t: TreeView) -> Seq<NextActionView>
    decreases t,
    via spec_next_actions_decreases
{
    if t.status == StepStatus::Todo {
        seq![spec_start_action(t)]
    } else {
        spec_next_actions_list(t.children)
    }
}

#[via_fn]
proof fn spec_next_actions_decreases(t: TreeView) {
    assert(decreases_to!(t => t.children));
}

/// The recommendations of a list of trees, in order.
pub open spec fn spec_next_actions_list(ts: Seq<TreeView>) -> Seq<NextActionView>
    decreases ts,
{
    if ts.len() == 0 {
        Seq::empty()
    } else {
        spec_next_actions(ts[0]) + spec_next_actions_list(ts.drop_first())
    }
}

/// Splitting off the last tree splits off its recommendations.
proof fn lemma_next_actions_list_push(ts: Seq<TreeView>, x: TreeView)
    ensures
        spec_next_actions_list(ts.push(x)) == spec_next_actions_list(ts) + spec_next_actions(x),
    decreases ts,
{
    if ts.len() == 0 {
        assert(ts.push(x)[0] == x);
        assert(ts.push(x).drop_first() =~= Seq::<TreeView>::empty());
        assert(spec_next_actions_list(Seq::<TreeView>::empty())
            == Seq::<NextActionView>::empty());
        assert(spec_next_actions_list(ts) == Seq::<NextActionView>::empty());
        assert(spec_next_actions_list(ts.push(x)) =~= spec_next_actions_list(ts)
            + spec_next_actions(x));
    } else {
        assert(ts.push(x)[0] == ts[0]);
        assert(ts.push(x).drop_first() =~= ts.drop_first().push(x));
        lemma_next_actions_list_push(ts.drop_first(), x);
        assert(spec_next_actions_list(ts.push(x)) =~= spec_next_actions_list(ts)
            + spec_next_actions(x));
    }
}

/// Collect the recommendations of one tree, in order.
#[verifier::loop_isolation(false)]
fn collect_next_actions(tree: &StatusTree, actions: &mut Vec<NextAction>)
    ensures
        final(actions)@.map_values(|a: NextAction| a@) == old(actions)@.map_values(
            |a: NextAction| a@,
        ) + spec_next_actions(tree@),
    decreases *tree,
{
    proof {
        lemma_tree_views_index(tree.children@);
    }
    if matches!(tree.status, StepStatus::Todo) {
        let mut description = String::from_str("Start: ");
        match &tree.purpose {
            Some(p) => description.append(p.as_str()),
            None => description.append(tree.id.as_str()),
        }
        let act = NextAction {
            fqid: tree.fqid.clone(),
            action_type: ActionType::Start,
            description,
        };
        proof {
            assert(act@ == spec_start_action(tree@));
        }
        actions.push(act);
        proof {
            assert(final(actions)@.map_values(|a: NextAction| a@) =~= old(actions)@.map_values(
                |a: NextAction| a@,
            ) + spec_next_actions(tree@));
        }
    } else {
        let n = tree.children.len();
        let mut i: usize = 0;
        while i < n
            invariant
                0 <= i <= n,
                actions@.map_values(|a: NextAction| a@) == old(actions)@.map_values(
                    |a: NextAction| a@,
                ) + spec_next_actions_list(tree@.children.take(i as int)),
            decreases n - i,
        {
            proof {
                assert(decreases_to!(*tree => tree.children@[i as int]));
            }
            collect_next_actions(&tree.children[i], actions);
            i = i + 1;
            proof {
                assert(tree@.children.take(i as int) =~= tree@.children.take(i as int - 1).push(
                    tree@.children[i as int - 1],
                ));
                lemma_next_actions_list_push(
                    tree@.children.take(i as int - 1),
                    tree@.children[i as int - 1],
                );
            }
        }
        proof {
            assert(tree@.children.take(n as int) =~= tree@.children);
        }
    }
}

/// Progress metrics: node counts by status over the status tree.
#[derive(Debug, Clone, Copy, PartialEq, Eq, Structural)]
pub struct ProgressMetrics {
    pub total: usize,
    pub wait: usize,
    pub todo: usize,
    pub in_progress: usize,
    pub done: usize,
}

impl ProgressMetrics {
    /// The completion percentage: done nodes over all nodes, as a whole
    /// percentage, and zero when there is nothing to count.
    pub fn completion_percentage(&self) -> (r: u64)
        requires
            self.done <= self.total,
        ensures
            r == (if self.total == 0 {
                0int
            } else {
                self.done * 100int / self.total as int
            }),
    {
        if self.total == 0 {
            0
        } else {
            let num: u128 = (self.done as u128) * 100;
            let q: u128 = num / (self.total as u128);
            proof {
                assert(self.done * 100int <= self.total * 100int) by (nonlinear_arith)
                    requires self.done <= self.total;
                assert(self.total * 100int / self.total as int == 100int) by (nonlinear_arith)
                    requires self.total > 0;
                assert(self.done * 100int / self.total as int <= 100int) by (nonlinear_arith)
                    requires self.done <= self.total && self.total > 0;
            }
            q as u64
        }
    }
}

impl Default for ProgressMetrics {
    /// All counters start at zero.
    fn default() -> (r: Self)
        ensures
            r.total == 0 && r.wait == 0 && r.todo == 0 && r.in_progress == 0 && r.done == 0,
    {
        ProgressMetrics { total: 0, wait: 0, todo: 0, in_progress: 0, done: 0 }
    }
}

/// The number of nodes of a tree.
pub open spec fn spec_node_count(t: TreeView) -> nat
    decreases t,
    via spec_node_count_decreases
{
    1 + spec_node_count_list(t.children)
}

#[via_fn]
proof fn spec_node_count_decreases(t: TreeView) {
    assert(decreases_to!(t => t.children));
}

/// The number of nodes of a list of trees.
pub open spec fn spec_node_count_list(ts: Seq<TreeView>) -> nat
    decreases ts,
{
    if ts.len() == 0 {
        0
    } else {
        spec_node_count(ts[0]) + spec_node_count_list(ts.drop_first())
    }
}

/// The number of nodes of a tree in the given status.
pub open spec fn spec_count_status(t: TreeView, st: StepStatus) -> nat
    decreases t,
    via spec_count_status_decreases
{
    (if t.status == st {
        1nat
    } else {
        0nat
    }) + spec_count_status_list(t.children, st)
}

#[via_fn]
proof fn spec_count_status_decreases(t: TreeView, st: StepStatus) {
    assert(decreases_to!(t => t.children));
}

/// The number of nodes of a list of trees in the given status.
pub open spec fn spec_count_status_list(ts: Seq<TreeView>, st: StepStatus) -> nat
    decreases ts,
{
    if ts.len() == 0 {
        0
    } else {
        spec_count_status(ts[0], st) + spec_count_status_list(ts.drop_first(), st)
    }
}

/// Every node is in exactly one of the four statuses, so the four counts
/// add up to the node count.
pub proof fn lemma_counts_add_up(t: TreeView)
    ensures
        spec_count_status(t, StepStatus::Wait) + spec_count_status(t, StepStatus::Todo)
            + spec_count_status(t, StepStatus::InProgress) + spec_count_status(
            t,
            StepStatus::Done,
        ) == spec_node_count(t),
    decreases t,
{
    lemma_counts_add_up_list(t.children);
}

/// The list form of the counting law.
pub proof fn lemma_counts_add_up_list(ts: Seq<TreeView>)
    ensures
        spec_count_status_list(ts, StepStatus::Wait) + spec_count_status_list(
            ts,
            StepStatus::Todo,
        ) + spec_count_status_list(ts, StepStatus::InProgress) + spec_count_status_list(
            ts,
            StepStatus::Done,
        ) == spec_node_count_list(ts),
    decreases ts,
{
    if ts.len() > 0 {
        lemma_counts_add_up(ts[0]);
        lemma_counts_add_up_list(ts.drop_first());
    }
}

/// Splitting off the last tree splits the counts.
proof fn lemma_count_list_push(ts: Seq<TreeView>, x: TreeView)
    ensures
        spec_node_count_list(ts.push(x)) == spec_node_count_list(ts) + spec_node_count(x),
        forall|st: StepStatus| #[trigger] spec_count_status_list(ts.push(x), st)
            == spec_count_status_list(ts, st) + spec_count_status(x, st),
    decreases ts,
{
    if ts.len() == 0 {
        assert(ts.push(x)[0] == x);
        assert(ts.push(x).drop_first() =~= Seq::<TreeView>::empty());
        assert(spec_node_count_list(Seq::<TreeView>::empty()) == 0);
        assert(spec_node_count_list(ts) == 0);
        assert forall|st: StepStatus| #[trigger] spec_count_status_list(ts.push(x), st)
            == spec_count_status_list(ts, st) + spec_count_status(x, st) by {
            assert(spec_count_status_list(Seq::<TreeView>::empty(), st) == 0);
            assert(spec_count_status_list(ts, st) == 0);
        }
    } else {
        assert(ts.push(x)[0] == ts[0]);
        assert(ts.push(x).drop_first() =~= ts.drop_first().push(x));
        lemma_count_list_push(ts.drop_first(), x);
        assert forall|st: StepStatus| #[trigger] spec_count_status_list(ts.push(x), st)
            == spec_count_status_list(ts, st) + spec_count_status(x, st) by {
            assert(spec_count_status_list(ts.push(x), st) == spec_count_status(ts[0], st)
                + spec_count_status_list(ts.drop_first().push(x), st));
        }
    }
}

/// Count the nodes of one tree into the metrics.
#[verifier::loop_isolation(false)]
fn collect_progress_metrics(tree: &StatusTree, metrics: &mut ProgressMetrics)
    requires
        old(metrics).total + spec_node_count(tree@) <= usize::MAX,
        old(metrics).wait + old(metrics).todo + old(metrics).in_progress + old(metrics).done
            <= old(metrics).total,
    ensures
        final(metrics).total == old(metrics).total + spec_node_count(tree@),
        final(metrics).wait == old(metrics).wait + spec_count_status(tree@, StepStatus::Wait),
        final(metrics).todo == old(metrics).todo + spec_count_status(tree@, StepStatus::Todo),
        final(metrics).in_progress == old(metrics).in_progress + spec_count_status(
            tree@,
            StepStatus::InProgress,
        ),
        final(metrics).done == old(metrics).done + spec_count_status(tree@, StepStatus::Done),
    decreases *tree,
{
    proof {
        lemma_tree_views_index(tree.children@);
        lemma_counts_add_up(tree@);
        lemma_counts_add_up_list(tree@.children);
    }
    metrics.total = metrics.total + 1;
    match tree.status {
        StepStatus::Wait => {
            metrics.wait = metrics.wait + 1;
        },
        StepStatus::Todo => {
            metrics.todo = metrics.todo + 1;
        },
        StepStatus::InProgress => {
            metrics.in_progress = metrics.in_progress + 1;
        },
        StepStatus::Done => {
            metrics.done = metrics.done + 1;
        },
    }
    let n = tree.children.len();
    let mut i: usize = 0;
    while i < n
        invariant
            0 <= i <= n,
            metrics.total == old(metrics).total + 1 + spec_node_count_list(
                tree@.children.take(i as int),
            ),
            metrics.wait == old(metrics).wait + (if tree@.status == StepStatus::Wait {
                1nat
            } else {
                0nat
            }) + spec_count_status_list(tree@.children.take(i as int), StepStatus::Wait),
            metrics.todo == old(metrics).todo + (if tree@.status == StepStatus::Todo {
                1nat
            } else {
                0nat
            }) + spec_count_status_list(tree@.children.take(i as int), StepStatus::Todo),
            metrics.in_progress == old(metrics).in_progress + (if tree@.status
                == StepStatus::InProgress {
                1nat
            } else {
                0nat
            }) + spec_count_status_list(tree@.children.take(i as int), StepStatus::InProgress),
            metrics.done == old(metrics).done + (if tree@.status == StepStatus::Done {
                1nat
            } else {
                0nat
            }) + spec_count_status_list(tree@.children.take(i as int), StepStatus::Done),
        decreases n - i,
    {
        proof {
            assert(decreases_to!(*tree => tree.children@[i as int]));
            lemma_counts_split(tree@, i as int);
            lemma_counts_add_up_list(tree@.children.take(i as int));
            lemma_counts_add_up(tree@.children[i as int]);
        }
        collect_progress_metrics(&tree.children[i], metrics);
        i = i + 1;
        proof {
            assert(tree@.children.take(i as int) =~= tree@.children.take(i as int - 1).push(
                tree@.children[i as int - 1],
            ));
            lemma_count_list_push(
                tree@.children.take(i as int - 1),
                tree@.children[i as int - 1],
            );
        }
    }
    proof {
        assert(tree@.children.take(n as int) =~= tree@.children);
    }
}

/// The nodes counted so far and the nodes of the remaining children stay
/// within the whole tree's count.
proof fn lemma_counts_split(t: TreeView, i: int)
    requires
        0 <= i < t.children.len(),
    ensures
        spec_node_count_list(t.children.take(i)) + spec_node_count(t.children[i])
            <= spec_node_count_list(t.children),
    decreases t.children.len(),
{
    lemma_count_take_bound(t.children, i);
}

/// Counts over a prefix plus the next tree stay within the whole list.
proof fn lemma_count_take_bound(ts: Seq<TreeView>, i: int)
    requires
        0 <= i < ts.len(),
    ensures
        spec_node_count_list(ts.take(i)) + spec_node_count(ts[i]) <= spec_node_count_list(ts),
    decreases i,
{
    if i == 0 {
        assert(ts.take(0) =~= Seq::<TreeView>::empty());
        assert(ts[0] == ts[0]);
        lemma_node_count_list_head(ts);
    } else {
        lemma_count_take_bound(ts.drop_first(), i - 1);
        assert(ts.take(i) =~= seq![ts[0]] + ts.drop_first().take(i - 1));
        lemma_node_count_list_cons(ts, i);
    }
}

/// The head tree's count is part of the list's count.
proof fn lemma_node_count_list_head(ts: Seq<TreeView>)
    requires
        ts.len() > 0,
    ensures
        spec_node_count(ts[0]) <= spec_node_count_list(ts),
{
}

/// Unfolding a list count over a prefix with the head split off.
proof fn lemma_node_count_list_cons(ts: Seq<TreeView>, i: int)
    requires
        1 <= i < ts.len(),
        spec_node_count_list(ts.drop_first().take(i - 1)) + spec_node_count(
            ts.drop_first()[i - 1],
        ) <= spec_node_count_list(ts.drop_first()),
    ensures
        spec_node_count_list(ts.take(i)) + spec_node_count(ts[i]) <= spec_node_count_list(ts),
{
    assert(ts.take(i)[0] == ts[0]);
    assert(ts.take(i).drop_first() =~= ts.drop_first().take(i - 1));
    assert(ts.drop_first()[i - 1] == ts[i]);
}


/// Writing a record makes it the one found under its FQID, and moves no
/// other lookup.
pub proof fn lemma_store_write_at(store: Seq<StepView>, s: StepView)
    requires
        spec_store_wf(store),
    ensures
        spec_has_step(spec_store_write(store, s), spec_step_fqid(s)),
        spec_step_at(spec_store_write(store, s), spec_step_fqid(s)) == s,
        forall|f2: Seq<char>| f2 != spec_step_fqid(s) ==> #[trigger] spec_store_idx(
            spec_store_write(store, s),
            f2,
        ) == spec_store_idx(store, f2),
        forall|f2: Seq<char>| f2 != spec_step_fqid(s) && spec_has_step(store, f2)
            ==> spec_step_at(#[trigger] spec_store_write(store, s), f2) == spec_step_at(
            store,
            f2,
        ),
{
    let key = spec_step_fqid(s);
    if spec_has_step(store, key) {
        lemma_store_idx_props(store, key);
        lemma_store_update(store, key, s);
    } else {
        crate::store::lemma_store_push(store, s);
    }
}

/// A step with no blocking links from its id has no unmet dependencies, so
/// nothing stands in the way of its initialization.
pub proof fn lemma_no_blocking_no_unmet(
    store: Seq<StepView>,
    pf: Seq<char>,
    links: Seq<LinkDefView>,
    sid: Seq<char>,
)
    requires
        forall|i: int|
            0 <= i < links.len() ==> !(#[trigger] links[i].from == sid && spec_is_blocking_type(
                links[i].link_type,
            )),
    ensures
        spec_unmet_deps(store, pf, links, sid).len() == 0,
    decreases links.len(),
{
    if links.len() > 0 {
        assert(links[0].from == sid ==> !spec_is_blocking_type(links[0].link_type));
        assert forall|i: int|
            0 <= i < links.drop_first().len() implies !(#[trigger] links.drop_first()[i].from
            == sid && spec_is_blocking_type(links.drop_first()[i].link_type)) by {
            assert(links.drop_first()[i] == links[i + 1]);
        }
        lemma_no_blocking_no_unmet(store, pf, links.drop_first(), sid);
    }
}

/// A step whose definition requires no scope parameter always comes out of
/// a fresh initialization in `Todo`.
pub proof fn lemma_unconstrained_init_is_todo(
    d: DefView,
    p: Option<Seq<char>>,
    sp: Seq<ParameterValueView>,
)
    requires
        forall|i: int| 0 <= i < d.scope.len() ==> !spec_ref_required(#[trigger] d.scope[i]),
    ensures
        spec_init_result(d, p, sp).attr.status == StepStatus::Todo,
{
    assert(spec_scope_satisfied(d.scope, sp));
}

/// Among freshly created child summaries nothing is done yet.
proof fn lemma_wait_ref_status(steps: Seq<DefView>, y: Seq<char>)
    ensures
        spec_ref_status(spec_wait_refs(steps), y) != Some(StepStatus::Done),
    decreases steps.len(),
{
    let own = spec_wait_refs(steps);
    if steps.len() > 0 && own[0].id != y {
        lemma_wait_ref_status(steps.drop_first(), y);
        assert(own.drop_first() =~= spec_wait_refs(steps.drop_first()));
    }
}

/// On a parent's first initialization, a child with a blocking dependency
/// lands in `Wait`, and a child with none lands in `Todo`.
pub proof fn lemma_first_iteration_eligibility(es: Seq<EdgeView>, steps: Seq<DefView>, k: int)
    requires
        0 <= k < steps.len(),
    ensures
        (exists|y: Seq<char>| reaches(es, steps[k].id, y)) ==> spec_promote(
            es,
            spec_wait_refs(steps),
        )[k].status == StepStatus::Wait,
        (forall|y: Seq<char>| !reaches(es, steps[k].id, y)) ==> spec_promote(
            es,
            spec_wait_refs(steps),
        )[k].status == StepStatus::Todo,
{
    let own = spec_wait_refs(steps);
    if exists|y: Seq<char>| reaches(es, steps[k].id, y) {
        let y = choose|y: Seq<char>| reaches(es, steps[k].id, y);
        lemma_wait_ref_status(steps, y);
        assert(!spec_eligible(es, own, own[k].id));
    }
}

/// When the recomputation after a finished child leaves every child
/// summary done, the parent's own record becomes done, without an explicit
/// finish call on the parent.
pub proof fn lemma_all_children_done_completes_parent(
    cfg: ProcessConfigView,
    mid: Seq<StepView>,
    f: Seq<char>,
    child_id: Seq<char>,
)
    requires
        spec_store_wf(mid),
        spec_parent_fqid(f) is Some,
        spec_parent_fqid(f).unwrap() != ROOT_FQID@,
        spec_find_def(cfg, spec_parent_fqid(f).unwrap()) is Some,
        spec_has_step(mid, spec_parent_fqid(f).unwrap()),
        ({
            let pf = spec_parent_fqid(f).unwrap();
            let pd = spec_find_def(cfg, pf).unwrap();
            let par = spec_step_at(mid, pf);
            let own1 = spec_mark_done(par.own_steps, child_id);
            spec_all_done(spec_promote(spec_blocking_edges(pd.links), own1))
        }),
    ensures
        ({
            let pf = spec_parent_fqid(f).unwrap();
            let news = spec_parent_update(cfg, mid, f, child_id);
            spec_has_step(news, pf) && spec_step_at(news, pf).attr.status == StepStatus::Done
        }),
{
    let pf = spec_parent_fqid(f).unwrap();
    let pd = spec_find_def(cfg, pf).unwrap();
    let par = spec_step_at(mid, pf);
    let es = spec_blocking_edges(pd.links);
    let own1 = spec_mark_done(par.own_steps, child_id);
    let own2 = spec_promote(es, own1);
    let mid2 = spec_apply_promote(mid, pf, es, own1);
    let pfin = StepView {
        attr: (AttrsView { status: StepStatus::Done, ..par.attr }),
        own_steps: own2,
        ..par
    };
    lemma_store_idx_props(mid, pf);
    assert(spec_step_fqid(par) == pf);
    assert(spec_step_fqid(pfin) == pf);
    assert(spec_store_wf(mid2)) by {
        assert forall|a: int, b: int|
            0 <= a < mid2.len() && 0 <= b < mid2.len() && a != b implies spec_step_fqid(mid2[a])
            != spec_step_fqid(mid2[b]) by {
            assert(spec_step_fqid(mid2[a]) == spec_step_fqid(mid[a]));
            assert(spec_step_fqid(mid2[b]) == spec_step_fqid(mid[b]));
        }
    }
    lemma_store_write_at(mid2, pfin);
    assert(spec_parent_update(cfg, mid, f, child_id) == spec_store_write(mid2, pfin));
}

} // verus!
