//! The stages of a transform pass.
//!
//! A pass goes through the stages in turn. Between two stages stand the deciders and
//! composers that read no state of their own: what each of them says enters the next stage
//! as a value.

use vstd::prelude::*;

use crate::meta::{
    CoreState, CoreStateModel, FrozenUnit, FrozenUnitModel, ModuleMeta, ModuleMetaModel,
    ModuleUsage,
};
use crate::rows::{
    find_row, find_where, first_where, group_views, keep_where, list_dup, list_same, map_rows,
    of_session, opt_dup, opt_same, opt_view, sorted, take_all, take_next, views, Row, RowTest,
};
use crate::store::cache::{
    loaded, next_version, version_found, version_left, version_of, with_cache,
};
use crate::store::compartments::by_sequence;
use crate::store::drops::{commands_kept, without_drops, DrainOrder};
use crate::store::errors::{McStoreError, StoreError};
use crate::store::integrity::well_formed;
use crate::store::records::{
    PendingAgentDrop, PendingAgentDropModel, StoredCompartment, TruncateOutcomeModel,
};
use crate::store::revert::{
    behind_cut, cut_conflicts, cut_fits, dropped, surviving, truncation,
};
use crate::store::workspace::{fingerprint, membership_of};
use crate::store::{McStore, McStoreModel};
use crate::text::{owned, quoted, quoted_text, same_text, u64_text, i64_text, int_text};
use crate::transform::errors::{TransformError, TransformErrorModel};
use crate::transform::ingress::{
    apply_ingress_meta, apply_scheduler_meta, block_with_id, check_ingress, class_of,
    current_shape, deferred_from_meta, effective_usage, enforce_block_identity, gate_open,
    holds_block, identity_fault, ingress_fault, ingress_meta, is_legacy_baseline, kept_sequence,
    latch_from_meta, latch_of, legacy_shape, live_blocks, mid_tool_use, producer_gate,
    scheduled_meta, selection_pass_class, surviving_revert_prefix_seq, tail_items,
    tail_sel_items, tail_state_from_live, usage_in_effect, valid_m0m1_shape,
};
use crate::transform::reductions::{
    contradicts, coverage_shrank, effective_reductions, frozen_reductions, frozen_red_targets,
    frozen_targets, in_effect, live_block, new_decisions, new_reduction_units,
    prune_covered_red_units, pruned, reductions_pending, shrank, some_new, surviving_red_units,
    survivors, validate_reduction_monotonicity, LINEAGE,
};
use crate::transform::todo::{advance_synthetic_todo, todo_advanced, InjectionOutcome};
use crate::transform::types::{
    ClassifierInput, DeferredExecute, DeferredExecuteModel, FlatBlock, FlatBlockModel,
    FlatProjection, FlatProjectionModel, LatchState, M0Composition, M0CompositionModel,
    M1Composition, M1CompositionModel, PassClass, PassDecision, PassPlan, PassPlanModel,
    ReductionDecision, ReductionDecisionModel, SchedulerOutcome, SchedulerOutcomeModel, SelItem,
    SelItemModel, ServedFrom, StepAction, StepInput, StepInputModel, TailState, TransformRequest,
    TransformRequestModel, TransformResponse, TransformResponseModel, TransformStatus,
};
use crate::wire::{CkWireMessage, CkWireMessageModel};

verus! {

// --- the beginning --------------------------------------------------------------------

/// What a pass begins with: the state of the session and what the scheduler reads.
#[derive(Debug, PartialEq, Eq)]
pub struct PassStart {
    pub core: CoreState,
    pub meta: ModuleMeta,
    pub row_version: Option<u64>,
    pub pending_drops: Vec<PendingAgentDrop>,
    /// The conversation holds the boundary.
    pub boundary_present: bool,
    /// The boundary where the conversation holds it, a dash where it does not.
    pub boundary_token: String,
    /// Compartments wait to be folded for the first time.
    pub first_fold_due: bool,
    pub workspace_fingerprint: String,
    pub usage: ModuleUsage,
    /// The blocks of the conversation.
    pub live: Vec<FlatBlock>,
    pub tail_state: TailState,
    pub drain_latch: LatchState,
    pub deferred_execute: Option<DeferredExecute>,
}

/// What a [`PassStart`] holds.
#[verifier::ext_equal]
pub struct PassStartModel {
    pub core: CoreStateModel,
    pub meta: ModuleMetaModel,
    pub row_version: Option<u64>,
    pub pending_drops: Seq<PendingAgentDropModel>,
    pub boundary_present: bool,
    pub boundary_token: Seq<char>,
    pub first_fold_due: bool,
    pub workspace_fingerprint: Seq<char>,
    pub usage: ModuleUsage,
    pub live: Seq<FlatBlockModel>,
    pub tail_state: TailState,
    pub drain_latch: LatchState,
    pub deferred_execute: Option<DeferredExecuteModel>,
}

impl View for PassStart {
    type V = PassStartModel;

    #[verifier::opaque]
    open spec fn view(&self) -> PassStartModel {
        PassStartModel {
            core: self.core@,
            meta: self.meta@,
            row_version: opt_view(self.row_version),
            pending_drops: views(self.pending_drops@),
            boundary_present: self.boundary_present,
            boundary_token: self.boundary_token@,
            first_fold_due: self.first_fold_due,
            workspace_fingerprint: self.workspace_fingerprint@,
            usage: self.usage,
            live: views(self.live@),
            tail_state: self.tail_state,
            drain_latch: self.drain_latch,
            deferred_execute: opt_view(self.deferred_execute),
        }
    }
}

impl Row for PassStart {
    fn dup(&self) -> (r: Self) {
        proof {
            reveal(<PassStart as View>::view);
        }
        PassStart {
            core: self.core.dup(),
            meta: self.meta.dup(),
            row_version: opt_dup(&self.row_version),
            pending_drops: list_dup(&self.pending_drops),
            boundary_present: self.boundary_present,
            boundary_token: self.boundary_token.clone(),
            first_fold_due: self.first_fold_due,
            workspace_fingerprint: self.workspace_fingerprint.clone(),
            usage: self.usage,
            live: list_dup(&self.live),
            tail_state: self.tail_state,
            drain_latch: self.drain_latch,
            deferred_execute: opt_dup(&self.deferred_execute),
        }
    }

    fn same(&self, other: &Self) -> (r: bool) {
        proof {
            reveal(<PassStart as View>::view);
        }
        self.core.same(&other.core)
            && self.meta.same(&other.meta)
            && opt_same(&self.row_version, &other.row_version)
            && list_same(&self.pending_drops, &other.pending_drops)
            && self.boundary_present == other.boundary_present
            && self.boundary_token == other.boundary_token
            && self.first_fold_due == other.first_fold_due
            && self.workspace_fingerprint == other.workspace_fingerprint
            && self.usage == other.usage
            && list_same(&self.live, &other.live)
            && self.tail_state == other.tail_state
            && self.drain_latch == other.drain_latch
            && opt_same(&self.deferred_execute, &other.deferred_execute)
    }
}

impl Clone for PassStart {
    fn clone(&self) -> (r: Self)
        ensures
            r@ == self@,
    {
        self.dup()
    }
}

/// Whether the conversation holds a boundary.
pub open spec fn holds_boundary(live: Seq<FlatBlockModel>, boundary: Seq<char>) -> bool {
    boundary.len() > 0 && first_where(live, block_with_id(boundary)) is Some
}

/// What a pass begins with.
#[verifier::opaque]
pub open spec fn started(
    s: McStoreModel,
    request: TransformRequestModel,
    projection: FlatProjectionModel,
    project: Seq<char>,
) -> PassStartModel {
    let session = request.session_id;
    let now = loaded(s, session);
    let live = keep_where(projection.blocks, live_block());
    let present = holds_boundary(live, now.core.boundary_id);
    PassStartModel {
        core: now.core,
        meta: now.meta,
        row_version: now.row_version,
        pending_drops: sorted::<PendingAgentDrop, DrainOrder>(of_session(s.drops, session)),
        boundary_present: present,
        boundary_token: if present {
            now.core.boundary_id
        } else {
            "-"@
        },
        first_fold_due: now.core.boundary_id.len() == 0 && of_session(s.compartments, session).len()
            > 0,
        workspace_fingerprint: match membership_of(s, project) {
            Some(m) => fingerprint(m),
            None => Seq::empty(),
        },
        usage: usage_in_effect(request.usage, now.meta.last_usage),
        live,
        tail_state: TailState { mid_tool_use: mid_tool_use(live) },
        drain_latch: latch_of(now.meta),
        deferred_execute: match now.meta.deferred_execute_state {
            Some(d) => Some(DeferredExecuteModel { reason: d.reason }),
            None => None,
        },
    }
}

/// Why a pass cannot begin, if it cannot.
pub open spec fn start_fault(
    s: McStoreModel,
    request: TransformRequestModel,
    projection: FlatProjectionModel,
) -> Option<TransformErrorModel> {
    let now = loaded(s, request.session_id);
    match ingress_fault(request.messages, projection.blocks) {
        Some(e) => Some(e),
        None => identity_fault(now.meta, projection, now.core),
    }
}

/// Begins a pass: checks the conversation and reads the state of the session.
pub fn begin_pass(
    store: &McStore,
    request: &TransformRequest,
    projection: &FlatProjection,
    project_path: &str,
) -> (r: Result<PassStart, TransformError>)
    ensures
        match r {
            Ok(start) => {
                &&& start_fault(store@, request@, projection@) is None
                &&& start@ == started(store@, request@, projection@, project_path@)
            },
            Err(e) => start_fault(store@, request@, projection@) == Some(e@),
        },
{
    proof {
        reveal(<PassStart as View>::view);
        reveal(started);
    }
    match check_ingress(&request.messages, projection) {
        Ok(_) => {},
        Err(e) => {
            return Err(e);
        },
    }
    let state = store.load(&request.session_id);
    match enforce_block_identity(&state.meta, projection, &state.core) {
        Ok(_) => {},
        Err(e) => {
            return Err(e);
        },
    }
    let pending_drops = store.load_pending_agent_drops(&request.session_id);
    let live = live_blocks(projection);
    let blank: bool = state.core.boundary_id.as_str().unicode_len() == 0;
    let boundary_present: bool = !blank && holds_block(&live, &state.core.boundary_id);
    let boundary_token = if boundary_present {
        state.core.boundary_id.clone()
    } else {
        owned("-")
    };
    let first_fold_due: bool = blank && store.has_compartments(&request.session_id);
    let workspace_fingerprint = store.workspace_fingerprint(project_path);
    let usage = effective_usage(request.usage, state.meta.last_usage);
    let tail_state = tail_state_from_live(&live);
    let drain_latch = latch_from_meta(&state.meta);
    let deferred_execute = match &state.meta.deferred_execute_state {
        Some(d) => Some(deferred_from_meta(d)),
        None => None,
    };
    Ok(
        PassStart {
            core: state.core,
            meta: state.meta,
            row_version: state.row_version,
            pending_drops,
            boundary_present,
            boundary_token,
            first_fold_due,
            workspace_fingerprint,
            usage,
            live,
            tail_state,
            drain_latch,
            deferred_execute,
        },
    )
}

// --- scheduling -------------------------------------------------------------------------

/// What the scheduler's decision means for a pass, and what a selection of reductions reads.
#[derive(Debug, Default, PartialEq, Eq)]
pub struct PassGate {
    pub render_config_changed: bool,
    pub hard_fold_requested: bool,
    /// Reductions may be produced.
    pub producer_gate: bool,
    pub selection_class: PassClass,
    /// The tail at the last execution; zero while the history waits to be rendered anew.
    pub last_execute_ordinal: u64,
    pub frozen_targets: Vec<String>,
    pub agent_drop_ids: Vec<String>,
    pub tail: Vec<SelItem>,
}

/// What a [`PassGate`] holds.
#[verifier::ext_equal]
pub struct PassGateModel {
    pub render_config_changed: bool,
    pub hard_fold_requested: bool,
    pub producer_gate: bool,
    pub selection_class: PassClass,
    pub last_execute_ordinal: u64,
    pub frozen_targets: Seq<Seq<char>>,
    pub agent_drop_ids: Seq<Seq<char>>,
    pub tail: Seq<SelItemModel>,
}

impl View for PassGate {
    type V = PassGateModel;

    #[verifier::opaque]
    open spec fn view(&self) -> PassGateModel {
        PassGateModel {
            render_config_changed: self.render_config_changed,
            hard_fold_requested: self.hard_fold_requested,
            producer_gate: self.producer_gate,
            selection_class: self.selection_class,
            last_execute_ordinal: self.last_execute_ordinal,
            frozen_targets: views(self.frozen_targets@),
            agent_drop_ids: views(self.agent_drop_ids@),
            tail: views(self.tail@),
        }
    }
}

impl Row for PassGate {
    fn dup(&self) -> (r: Self) {
        proof {
            reveal(<PassGate as View>::view);
        }
        PassGate {
            render_config_changed: self.render_config_changed,
            hard_fold_requested: self.hard_fold_requested,
            producer_gate: self.producer_gate,
            selection_class: self.selection_class,
            last_execute_ordinal: self.last_execute_ordinal,
            frozen_targets: list_dup(&self.frozen_targets),
            agent_drop_ids: list_dup(&self.agent_drop_ids),
            tail: list_dup(&self.tail),
        }
    }

    fn same(&self, other: &Self) -> (r: bool) {
        proof {
            reveal(<PassGate as View>::view);
        }
        self.render_config_changed == other.render_config_changed
            && self.hard_fold_requested == other.hard_fold_requested
            && self.producer_gate == other.producer_gate
            && self.selection_class == other.selection_class
            && self.last_execute_ordinal == other.last_execute_ordinal
            && list_same(&self.frozen_targets, &other.frozen_targets)
            && list_same(&self.agent_drop_ids, &other.agent_drop_ids)
            && list_same(&self.tail, &other.tail)
    }
}

impl Clone for PassGate {
    fn clone(&self) -> (r: Self)
        ensures
            r@ == self@,
    {
        self.dup()
    }
}

/// Whether the render configuration changed since the last fold.
pub open spec fn config_changed(meta: ModuleMetaModel, render_config: Seq<char>) -> bool {
    meta.initialized && render_config != meta.last_render_config
}

/// What the scheduler's decision means for a pass.
#[verifier::opaque]
pub open spec fn gated(
    start: PassStartModel,
    render_config: Seq<char>,
    outcome: SchedulerOutcomeModel,
) -> PassGateModel {
    let changed = config_changed(start.meta, render_config);
    let hard = start.first_fold_due || outcome.idle_ttl_fired;
    let open = gate_open(
        outcome.pass,
        !start.meta.initialized || changed || (start.core.reconcile_pending
            && !start.boundary_present) || hard,
    );
    PassGateModel {
        render_config_changed: changed,
        hard_fold_requested: hard,
        producer_gate: open,
        selection_class: if open {
            class_of(outcome.pass)
        } else {
            PassClass::Defer
        },
        last_execute_ordinal: if start.core.reconcile_pending {
            0
        } else {
            start.meta.last_execute_ordinal
        },
        frozen_targets: frozen_targets(start.core.frozen_units),
        agent_drop_ids: start.pending_drops.map_values(|d: PendingAgentDropModel| d.target_id),
        tail: tail_items(start.live, start.meta.coverage_ordinal),
    }
}

fn drop_target(d: &PendingAgentDrop) -> (r: String)
    ensures
        r@ == d@.target_id,
{
    d.target_id.clone()
}

/// Works out what the scheduler's decision means for a pass.
pub fn open_gate(start: &PassStart, render_config: &str, outcome: &SchedulerOutcome) -> (r: PassGate)
    ensures
        r@ == gated(start@, render_config@, outcome@),
{
    proof {
        reveal(<PassStart as View>::view);
        reveal(<PassGate as View>::view);
        reveal(gated);
    }
    let render_config_changed: bool = start.meta.initialized && !same_text(
        render_config,
        &start.meta.last_render_config,
    );
    let hard_fold_requested: bool = start.first_fold_due || outcome.idle_ttl_fired;
    let open: bool = producer_gate(
        outcome.pass,
        !start.meta.initialized || render_config_changed || (start.core.reconcile_pending
            && !start.boundary_present) || hard_fold_requested,
    );
    PassGate {
        render_config_changed,
        hard_fold_requested,
        producer_gate: open,
        selection_class: if open {
            selection_pass_class(outcome.pass)
        } else {
            PassClass::Defer
        },
        last_execute_ordinal: if start.core.reconcile_pending {
            0
        } else {
            start.meta.last_execute_ordinal
        },
        frozen_targets: frozen_red_targets(&start.core),
        agent_drop_ids: map_rows(
            &start.pending_drops,
            drop_target,
            Ghost(|d: PendingAgentDropModel| d.target_id),
        ),
        tail: tail_sel_items(&start.live, start.meta.coverage_ordinal),
    }
}

// --- the plan -------------------------------------------------------------------------

/// What decides which plan a pass follows.
#[verifier::opaque]
pub open spec fn classified(
    start: PassStartModel,
    gate: PassGateModel,
    reductions: Seq<ReductionDecisionModel>,
    m1_digest: u64,
) -> ClassifierInput {
    ClassifierInput {
        initialized: start.meta.initialized,
        is_legacy_baseline: legacy_shape(start.core),
        valid_m0m1_shape: current_shape(start.core),
        render_config_changed: gate.render_config_changed,
        hard_fold_requested: gate.hard_fold_requested,
        boundary_present: start.boundary_present,
        reconcile_pending: start.core.reconcile_pending,
        m1_revision_changed: m1_digest != start.meta.m1_revision,
        reductions_pending: some_new(
            start.core,
            start.live,
            start.meta.coverage_ordinal,
            reductions,
        ),
    }
}

/// Works out what decides which plan a pass follows. A decision that contradicts what is
/// frozen fails the pass.
pub fn classify_pass(
    start: &PassStart,
    gate: &PassGate,
    reductions: &Vec<ReductionDecision>,
    m1_digest: u64,
) -> (r: Result<ClassifierInput, TransformError>)
    ensures
        match r {
            Ok(input) => {
                &&& input == classified(start@, gate@, views(reductions@), m1_digest)
                &&& forall|i: int|
                    0 <= i < reductions@.len() ==> !contradicts(
                        start@.core,
                        #[trigger] views(reductions@)[i],
                    )
            },
            Err(e) => {
                &&& e@ == TransformErrorModel::ReductionConflict
                &&& exists|i: int|
                    0 <= i < reductions@.len() && contradicts(
                        start@.core,
                        #[trigger] views(reductions@)[i],
                    )
            },
        },
{
    proof {
        reveal(<PassStart as View>::view);
        reveal(<PassGate as View>::view);
        reveal(classified);
    }
    match validate_reduction_monotonicity(&start.core, reductions) {
        Ok(_) => {},
        Err(e) => {
            return Err(e);
        },
    }
    Ok(
        ClassifierInput {
            initialized: start.meta.initialized,
            is_legacy_baseline: is_legacy_baseline(&start.core),
            valid_m0m1_shape: valid_m0m1_shape(&start.core),
            render_config_changed: gate.render_config_changed,
            hard_fold_requested: gate.hard_fold_requested,
            boundary_present: start.boundary_present,
            reconcile_pending: start.core.reconcile_pending,
            m1_revision_changed: m1_digest != start.meta.m1_revision,
            reductions_pending: reductions_pending(
                &start.core,
                reductions,
                &start.live,
                start.meta.coverage_ordinal,
            ),
        },
    )
}

/// Whether a plan renders anew.
pub open spec fn busts(plan: PassPlanModel) -> bool {
    plan is Hard || plan is MigrateHard || plan is Soft
}

/// Tests whether a plan renders anew.
pub fn is_bust(plan: &PassPlan) -> (r: bool)
    ensures
        r == busts(plan@),
{
    match plan {
        PassPlan::Hard | PassPlan::MigrateHard | PassPlan::Soft => true,
        PassPlan::Defer => false,
        PassPlan::Reject(_) => false,
    }
}

/// The name of what a pass did.
pub open spec fn action_name(plan: PassPlanModel) -> Seq<char> {
    match plan {
        PassPlanModel::Hard | PassPlanModel::MigrateHard => "HARD"@,
        PassPlanModel::Soft => "SOFT"@,
        PassPlanModel::Defer => "SOFT+"@,
        PassPlanModel::Reject(_) => "ERROR"@,
    }
}

/// Names what a pass did.
pub fn action_str(plan: &PassPlan) -> (r: String)
    ensures
        r@ == action_name(plan@),
{
    match plan {
        PassPlan::Hard | PassPlan::MigrateHard => owned("HARD"),
        PassPlan::Soft => owned("SOFT"),
        PassPlan::Defer => owned("SOFT+"),
        PassPlan::Reject(_) => owned("ERROR"),
    }
}

// --- the work -------------------------------------------------------------------------

/// The state of a session as a pass changes it.
#[derive(Debug, PartialEq, Eq)]
pub struct PassWork {
    pub core: CoreState,
    pub meta: ModuleMeta,
    /// The version that the commit expects.
    pub expected: Option<u64>,
    /// The sequence that the history is to be cut back to, where a cut waits to be written
    /// with the commit.
    pub cut: Option<i64>,
    pub m1_digest: u64,
    /// The pass rendered anew and covers less than before.
    pub coverage_shrunk: bool,
}

/// What a [`PassWork`] holds.
#[verifier::ext_equal]
pub struct PassWorkModel {
    pub core: CoreStateModel,
    pub meta: ModuleMetaModel,
    pub expected: Option<u64>,
    pub cut: Option<i64>,
    pub m1_digest: u64,
    pub coverage_shrunk: bool,
}

impl View for PassWork {
    type V = PassWorkModel;

    #[verifier::opaque]
    open spec fn view(&self) -> PassWorkModel {
        PassWorkModel {
            core: self.core@,
            meta: self.meta@,
            expected: opt_view(self.expected),
            cut: self.cut,
            m1_digest: self.m1_digest,
            coverage_shrunk: self.coverage_shrunk,
        }
    }
}

impl Row for PassWork {
    fn dup(&self) -> (r: Self) {
        proof {
            reveal(<PassWork as View>::view);
        }
        PassWork {
            core: self.core.dup(),
            meta: self.meta.dup(),
            expected: opt_dup(&self.expected),
            cut: self.cut,
            m1_digest: self.m1_digest,
            coverage_shrunk: self.coverage_shrunk,
        }
    }

    fn same(&self, other: &Self) -> (r: bool) {
        proof {
            reveal(<PassWork as View>::view);
        }
        self.core.same(&other.core)
            && self.meta.same(&other.meta)
            && opt_same(&self.expected, &other.expected)
            && opt_same(&self.cut, &other.cut)
            && self.m1_digest == other.m1_digest
            && self.coverage_shrunk == other.coverage_shrunk
    }
}

impl Clone for PassWork {
    fn clone(&self) -> (r: Self)
        ensures
            r@ == self@,
    {
        self.dup()
    }
}

/// The state that a pass starts to change.
#[verifier::opaque]
pub open spec fn work_begun(
    start: PassStartModel,
    usage: Option<ModuleUsage>,
    projection: FlatProjectionModel,
    outcome: SchedulerOutcomeModel,
    plan: PassPlanModel,
    captured: Option<Seq<char>>,
    m1_digest: u64,
) -> PassWorkModel {
    let meta = scheduled_meta(ingress_meta(start.meta, usage, projection), outcome);
    PassWorkModel {
        core: start.core,
        meta: if busts(plan) {
            ModuleMetaModel { last_todo_state: captured, ..meta }
        } else {
            meta
        },
        expected: start.row_version,
        cut: None,
        m1_digest,
        coverage_shrunk: false,
    }
}

/// Starts to change the state of a session. `captured` is the todo list that the tail ends
/// with; it is kept where the plan renders anew. A plan that rejects fails the pass.
pub fn begin_work(
    start: &PassStart,
    usage: Option<ModuleUsage>,
    projection: &FlatProjection,
    outcome: &SchedulerOutcome,
    plan: &PassPlan,
    captured: &Option<String>,
    m1_digest: u64,
) -> (r: Result<PassWork, TransformError>)
    ensures
        match r {
            Ok(work) => {
                &&& plan@ !is Reject
                &&& work@ == work_begun(
                    start@,
                    usage,
                    projection@,
                    outcome@,
                    plan@,
                    opt_view(*captured),
                    m1_digest,
                )
            },
            Err(e) => plan@ matches PassPlanModel::Reject(why) && e@
                == TransformErrorModel::UnknownShape(why),
        },
{
    proof {
        reveal(<PassStart as View>::view);
        reveal(<PassWork as View>::view);
        reveal(work_begun);
    }
    match plan {
        PassPlan::Reject(why) => {
            return Err(TransformError::UnknownShape(why.clone()));
        },
        _ => {},
    }
    let mut meta = start.meta.dup();
    apply_ingress_meta(&mut meta, usage, projection);
    apply_scheduler_meta(&mut meta, outcome);
    if is_bust(plan) {
        meta.last_todo_state = opt_dup(captured);
    }
    Ok(
        PassWork {
            core: start.core.dup(),
            meta,
            expected: start.row_version,
            cut: None,
            m1_digest,
            coverage_shrunk: false,
        },
    )
}

/// The kind of a generated head block.
pub const SYNTH_REGION_KIND: &'static str = "synthesized-region";

/// A generated head block.
pub open spec fn region(key: Seq<char>, payload: Seq<char>) -> FrozenUnitModel {
    FrozenUnitModel {
        key,
        kind: SYNTH_REGION_KIND@,
        frozen_payload: payload,
        durability_class: LINEAGE@,
        reset_rule: Seq::empty(),
    }
}

/// Freezes a generated head block.
pub fn synth_region(key: &str, payload: String) -> (r: FrozenUnit)
    ensures
        r@ == region(key@, payload@),
{
    FrozenUnit {
        key: owned(key),
        kind: owned(SYNTH_REGION_KIND),
        frozen_payload: payload,
        durability_class: owned(LINEAGE),
        reset_rule: String::new(),
    }
}

/// Freezes the delta block that stands for no delta.
pub fn render_m1_placeholder(placeholder: &str) -> (r: FrozenUnit)
    ensures
        r@ == region("m1"@, placeholder@),
{
    synth_region("m1", owned(placeholder))
}

/// Freezes a delta block.
pub fn render_m1_body(body: &str) -> (r: FrozenUnit)
    ensures
        r@ == region("m1"@, body@),
{
    synth_region("m1", owned(body))
}

// --- rendering the history anew -------------------------------------------------------

/// A block before the covered history that does not belong to the system.
pub open spec fn stray_block(first: u64) -> spec_fn(FlatBlockModel) -> bool {
    |b: FlatBlockModel| b.ordinal < first && b.role != "system"@
}

/// Accepts blocks before the covered history.
pub struct StrayBlock {
    pub first: u64,
}

impl RowTest<FlatBlock> for StrayBlock {
    open spec fn accepts(&self) -> spec_fn(FlatBlockModel) -> bool {
        stray_block(self.first)
    }

    fn test(&self, row: &FlatBlock) -> (r: bool) {
        row.ordinal < self.first && !same_text(&row.role, "system")
    }
}

/// Whether a composition covers history without a boundary that the conversation holds.
pub open spec fn mint_absent(comp: M0CompositionModel, live: Seq<FlatBlockModel>) -> bool {
    comp.coverage_ordinal is Some && !holds_boundary(live, comp.boundary_id)
}

/// The text of a gap before the covered history.
pub open spec fn gap_text(stray: FlatBlockModel, first: u64) -> Seq<char> {
    "leading coverage gap: live item "@ + stray.id + " (ordinal "@ + int_text(stray.ordinal as int)
        + ") sits before the first compartment start (ordinal "@ + int_text(first as int)
        + "); composing m0 would silently drop it from the tail"@
}

/// The text of a boundary that is not there.
pub open spec fn absent_text(minted: Seq<char>) -> Seq<char> {
    "fold minted anchor "@ + quoted(minted)
        + " from the folded compartment's end_message_id, but no live block carries that id; the anchor must be the flat block id (`<mid>#<index>`) of the last covered block; check the publisher's end_message_id"@
}

/// What a composition asks for.
#[derive(Debug, Clone, Copy, PartialEq, Eq, Structural)]
pub enum FoldStep {
    /// It may be frozen.
    Ready,
    /// The history has to be cut back first.
    Recut,
}

/// What a composition asks for, or why it fails the pass.
pub open spec fn fold_step(
    comp: M0CompositionModel,
    live: Seq<FlatBlockModel>,
    reconcile_pending: bool,
) -> Result<FoldStep, TransformErrorModel> {
    match comp.first_covered_ordinal {
        Some(first) if find_where(live, stray_block(first)) is Some => Err(
            TransformErrorModel::CoverageGap(
                gap_text(find_where(live, stray_block(first))->0, first),
            ),
        ),
        _ => if !mint_absent(comp, live) {
            Ok(FoldStep::Ready)
        } else if reconcile_pending {
            Ok(FoldStep::Recut)
        } else {
            Err(TransformErrorModel::BoundaryNotPresent(absent_text(comp.boundary_id)))
        },
    }
}

fn is_mint_absent(comp: &M0Composition, live: &Vec<FlatBlock>) -> (r: bool)
    ensures
        r == mint_absent(comp@, views(live@)),
{
    comp.coverage_ordinal.is_some() && (comp.boundary_id.as_str().unicode_len() == 0
        || !holds_block(live, &comp.boundary_id))
}

/// Checks a composition: nothing may be dropped before it, and the conversation must hold
/// the boundary that it mints.
pub fn check_fold(comp: &M0Composition, start: &PassStart) -> (r: Result<FoldStep, TransformError>)
    ensures
        match (r, fold_step(comp@, start@.live, start@.core.reconcile_pending)) {
            (Ok(step), Ok(wanted)) => step == wanted,
            (Err(e), Err(fault)) => e@ == fault,
            _ => false,
        },
{
    proof {
        reveal(<PassStart as View>::view);
    }
    match comp.first_covered_ordinal {
        Some(first) => {
            match find_row(&start.live, &StrayBlock { first }) {
                Some(at) => {
                    let stray = &start.live[at];
                    let mut text = owned("leading coverage gap: live item ");
                    text.append(&stray.id);
                    text.append(" (ordinal ");
                    text.append(&u64_text(stray.ordinal));
                    text.append(") sits before the first compartment start (ordinal ");
                    text.append(&u64_text(first));
                    text.append("); composing m0 would silently drop it from the tail");
                    return Err(TransformError::CoverageGap(text));
                },
                None => {},
            }
        },
        None => {},
    }
    if !is_mint_absent(comp, &start.live) {
        return Ok(FoldStep::Ready);
    }
    if start.core.reconcile_pending {
        return Ok(FoldStep::Recut);
    }
    let mut text = owned("fold minted anchor ");
    text.append(&quoted_text(&comp.boundary_id));
    text.append(
        " from the folded compartment's end_message_id, but no live block carries that id; the anchor must be the flat block id (`<mid>#<index>`) of the last covered block; check the publisher's end_message_id",
    );
    Err(TransformError::BoundaryNotPresent(text))
}

/// The state of a pass that is to cut the history back. The cut is written with the commit,
/// not before: where there is something to drop, it waits as `cut`.
#[verifier::opaque]
pub open spec fn recut_work(
    work: PassWorkModel,
    outcome: TruncateOutcomeModel,
    cut: Option<i64>,
) -> PassWorkModel {
    PassWorkModel {
        meta: ModuleMetaModel {
            revert_epoch: outcome.revert_epoch,
            last_recut: outcome.last_recut,
            ..work.meta
        },
        cut,
        ..work
    }
}

/// The sequence that a pass cuts a session's history back to.
pub open spec fn cut_target(s: McStoreModel, session: Seq<char>, live: Seq<FlatBlockModel>) -> i64 {
    kept_sequence(by_sequence(of_session(s.compartments, session)), live)
}

/// The cut that waits, where there is something to drop.
pub open spec fn waiting_cut(s: McStoreModel, session: Seq<char>, keep: i64) -> Option<i64> {
    if dropped(s, session, keep).len() > 0 {
        Some(keep)
    } else {
        None
    }
}

/// Works out how to cut the history of a session back to what the conversation still holds,
/// and returns the sequence to keep with the compartments up to it. Nothing is written.
pub fn recut(store: &McStore, session_id: &str, work: &mut PassWork, start: &PassStart) -> (r:
    Result<(i64, Vec<StoredCompartment>), TransformError>)
    ensures
        ({
            let s = store@;
            let keep = cut_target(s, session_id@, start@.live);
            let row = crate::rows::row_of(s.cache, session_id@);
            let conflict = row is None || old(work)@.expected != version_of(s, session_id@);
            let full = dropped(s, session_id@, keep).len() > 0 && !version_left(s, session_id@);
            match r {
                Ok(kept) => {
                    &&& !conflict && !full
                    &&& kept.0 == keep
                    &&& views(kept.1@) == surviving(s, session_id@, keep)
                    &&& final(work)@ == recut_work(
                        old(work)@,
                        truncation(s, session_id@, keep, row->0).1,
                        waiting_cut(s, session_id@, keep),
                    )
                },
                Err(e) => {
                    &&& conflict || full
                    &&& e@ == TransformErrorModel::Store(
                        if conflict {
                            McStoreError::CasConflict {
                                expected: old(work)@.expected,
                                found: version_found(s, session_id@),
                            }
                        } else {
                            McStoreError::Store(StoreError::Exhausted)
                        },
                    )
                    &&& final(work)@ == old(work)@
                },
            }
        }),
{
    proof {
        reveal(<PassStart as View>::view);
        reveal(<PassWork as View>::view);
        reveal(recut_work);
    }
    let compartments = store.load_compartments(session_id);
    let keep: i64 = surviving_revert_prefix_seq(&compartments, &start.live);
    match store.plan_cut(session_id, keep, work.expected) {
        Ok((outcome, drops)) => {
            work.meta.revert_epoch = outcome.revert_epoch;
            work.meta.last_recut = outcome.last_recut;
            work.cut = if drops {
                Some(keep)
            } else {
                None
            };
            Ok((keep, store.compartments_through(session_id, keep)))
        },
        Err(e) => Err(TransformError::Store(e)),
    }
}

/// The text of a boundary that is not there after a cut.
pub open spec fn recut_absent_text(keep: i64, minted: Seq<char>) -> Seq<char> {
    "re-cut kept compartments through sequence "@ + int_text(keep as int)
        + ", but the fold still minted absent anchor "@ + quoted(minted)
        + "; the publisher must write flat end_message_id block ids"@
}

/// The record with the execution watermark no further than the coverage.
pub open spec fn clamped(meta: ModuleMetaModel, coverage: Option<u64>) -> ModuleMetaModel {
    let covered = match coverage {
        Some(n) => n,
        None => 0,
    };
    ModuleMetaModel {
        last_execute_ordinal: if meta.last_execute_ordinal <= covered {
            meta.last_execute_ordinal
        } else {
            covered
        },
        ..meta
    }
}

fn clamp_watermark(meta: &mut ModuleMeta, coverage: Option<u64>)
    ensures
        final(meta)@ == clamped(old(meta)@, coverage),
{
    let covered: u64 = match coverage {
        Some(n) => n,
        None => 0,
    };
    if meta.last_execute_ordinal > covered {
        meta.last_execute_ordinal = covered;
    }
}

/// The state after the history was composed anew behind a cut: the execution watermark
/// goes no further than the coverage.
#[verifier::opaque]
pub open spec fn refolded(work: PassWorkModel, comp: M0CompositionModel, m1_digest: u64) ->
    PassWorkModel {
    PassWorkModel { meta: clamped(work.meta, comp.coverage_ordinal), m1_digest, ..work }
}

fn write_recut_absent(keep: i64, minted: &str) -> (r: String)
    ensures
        r@ == recut_absent_text(keep, minted@),
{
    let mut text = owned("re-cut kept compartments through sequence ");
    text.append(&i64_text(keep));
    text.append(", but the fold still minted absent anchor ");
    text.append(&quoted_text(minted));
    text.append("; the publisher must write flat end_message_id block ids");
    text
}

/// Checks the composition behind a cut.
pub fn check_refold(
    work: &mut PassWork,
    comp: &M0Composition,
    start: &PassStart,
    keep: i64,
    m1_digest: u64,
) -> (r: Result<(), TransformError>)
    ensures
        final(work)@ == refolded(old(work)@, comp@, m1_digest),
        match r {
            Ok(_) => !mint_absent(comp@, start@.live),
            Err(e) => mint_absent(comp@, start@.live) && e@
                == TransformErrorModel::BoundaryNotPresent(
                recut_absent_text(keep, comp@.boundary_id),
            ),
        },
{
    proof {
        reveal(<PassStart as View>::view);
        reveal(<PassWork as View>::view);
        reveal(refolded);
    }
    clamp_watermark(&mut work.meta, comp.coverage_ordinal);
    work.m1_digest = m1_digest;
    if is_mint_absent(comp, &start.live) {
        Err(TransformError::BoundaryNotPresent(write_recut_absent(keep, &comp.boundary_id)))
    } else {
        Ok(())
    }
}

/// The step that freezes a composition: its block, an empty delta and the reductions that
/// are still in the tail.
#[verifier::opaque]
pub open spec fn fold_input(
    core: CoreStateModel,
    start: PassStartModel,
    comp: M0CompositionModel,
    reductions: Seq<ReductionDecisionModel>,
    placeholder: Seq<char>,
) -> StepInputModel {
    StepInputModel {
        proposed: StepAction::Hard,
        boundary_present: start.boundary_token,
        rendered_units: seq![region("m0"@, comp.m0_bytes), region("m1"@, placeholder)] + survivors(
            in_effect(core, reductions),
            start.live,
            comp.coverage_ordinal,
        ),
        new_boundary_id: Some(comp.boundary_id),
    }
}

/// A cache without frozen units and queued changes.
#[verifier::opaque]
pub open spec fn cleared(core: CoreStateModel) -> CoreStateModel {
    CoreStateModel { frozen_units: Seq::empty(), pending_changes: Seq::empty(), ..core }
}

/// Prepares the step that freezes a composition, and clears the cache for it.
pub fn prepare_fold(
    work: &mut PassWork,
    start: &PassStart,
    comp: &M0Composition,
    reductions: &Vec<ReductionDecision>,
    placeholder: &str,
) -> (r: StepInput)
    ensures
        r@ == fold_input(old(work)@.core, start@, comp@, views(reductions@), placeholder@),
        final(work)@ == (PassWorkModel { core: cleared(old(work)@.core), ..old(work)@ }),
{
    proof {
        reveal(<PassStart as View>::view);
        reveal(<PassWork as View>::view);
        reveal(fold_input);
        reveal(cleared);
    }
    broadcast use group_views;

    let effective = effective_reductions(&work.core, reductions);
    let mut kept = surviving_red_units(&effective, &start.live, comp.coverage_ordinal);
    work.core.frozen_units = Vec::new();
    work.core.pending_changes = Vec::new();
    let mut rendered_units: Vec<FrozenUnit> = Vec::new();
    rendered_units.push(synth_region("m0", comp.m0_bytes.clone()));
    rendered_units.push(render_m1_placeholder(placeholder));
    assert(views(rendered_units@) =~= seq![
        region("m0"@, comp@.m0_bytes),
        region("m1"@, placeholder@),
    ]);
    rendered_units.append(&mut kept);
    StepInput {
        proposed: StepAction::Hard,
        boundary_present: start.boundary_token.clone(),
        rendered_units,
        new_boundary_id: Some(comp.boundary_id.clone()),
    }
}

/// The state after a composition was frozen.
#[verifier::opaque]
pub open spec fn folded(
    work: PassWorkModel,
    start: PassStartModel,
    stepped: CoreStateModel,
    comp: M0CompositionModel,
    render_config: Seq<char>,
    now_ms: i64,
    recaptured: Option<Seq<char>>,
) -> PassWorkModel {
    let less = shrank(start.meta.coverage_ordinal, comp.coverage_ordinal);
    PassWorkModel {
        core: stepped,
        meta: ModuleMetaModel {
            initialized: true,
            last_render_config: render_config,
            last_todo_state: if less {
                recaptured
            } else {
                work.meta.last_todo_state
            },
            coverage_ordinal: comp.coverage_ordinal,
            folded_compartment_seq: comp.folded_compartment_seq,
            rendered_memory_ids: comp.rendered_memory_ids,
            memory_mutation_cursor: comp.memory_mutation_cursor,
            max_memory_id: comp.max_memory_id,
            expiry_cutoff_ms: now_ms,
            m1_revision: work.m1_digest,
            ..work.meta
        },
        coverage_shrunk: less,
        ..work
    }
}

/// Records what a composition covers. `stepped` is the cache behind the step, and
/// `recaptured` the todo list of the longer tail where coverage became less.
pub fn finish_fold(
    work: &mut PassWork,
    start: &PassStart,
    stepped: CoreState,
    comp: &M0Composition,
    render_config: &str,
    now_ms: i64,
    recaptured: &Option<String>,
)
    ensures
        final(work)@ == folded(
            old(work)@,
            start@,
            stepped@,
            comp@,
            render_config@,
            now_ms,
            opt_view(*recaptured),
        ),
{
    proof {
        reveal(<PassStart as View>::view);
        reveal(<PassWork as View>::view);
        reveal(folded);
    }
    let less: bool = coverage_shrank(start.meta.coverage_ordinal, comp.coverage_ordinal);
    work.core = stepped;
    work.meta.initialized = true;
    work.meta.last_render_config = owned(render_config);
    if less {
        work.meta.last_todo_state = opt_dup(recaptured);
    }
    work.meta.coverage_ordinal = comp.coverage_ordinal;
    work.meta.folded_compartment_seq = comp.folded_compartment_seq;
    work.meta.rendered_memory_ids = list_dup(&comp.rendered_memory_ids);
    work.meta.memory_mutation_cursor = comp.memory_mutation_cursor;
    work.meta.max_memory_id = comp.max_memory_id;
    work.meta.expiry_cutoff_ms = now_ms;
    work.meta.m1_revision = work.m1_digest;
    work.coverage_shrunk = less;
}

// --- rendering the delta anew ---------------------------------------------------------

/// The text of an advanced boundary that is not there.
pub open spec fn advance_absent_text(id: Seq<char>) -> Seq<char> {
    "coverage-extending delta advanced the anchor to "@ + quoted(id)
        + ", but no live block carries that id; the anchor must be the flat block id (`<mid>#<index>`) of the last covered block"@
}

/// The step that freezes a delta: its block and the new reductions.
#[verifier::opaque]
pub open spec fn delta_input(
    core: CoreStateModel,
    start: PassStartModel,
    m1: M1CompositionModel,
    reductions: Seq<ReductionDecisionModel>,
) -> StepInputModel {
    StepInputModel {
        proposed: StepAction::Soft,
        boundary_present: start.boundary_token,
        rendered_units: seq![region("m1"@, m1.body)] + frozen_reductions(
            new_decisions(core, start.live, start.meta.coverage_ordinal, reductions),
        ),
        new_boundary_id: match m1.new_coverage {
            Some(end) => Some(end.boundary_id),
            None => None,
        },
    }
}

/// Whether a delta advances the boundary to one that the conversation does not hold.
pub open spec fn advance_absent(m1: M1CompositionModel, live: Seq<FlatBlockModel>) -> bool {
    m1.new_coverage matches Some(end) && !holds_boundary(live, end.boundary_id)
}

/// Prepares the step that freezes a delta.
pub fn prepare_delta(
    work: &PassWork,
    start: &PassStart,
    m1: &M1Composition,
    reductions: &Vec<ReductionDecision>,
) -> (r: Result<StepInput, TransformError>)
    ensures
        match r {
            Ok(input) => {
                &&& !advance_absent(m1@, start@.live)
                &&& input@ == delta_input(work@.core, start@, m1@, views(reductions@))
            },
            Err(e) => {
                &&& advance_absent(m1@, start@.live)
                &&& e@ == TransformErrorModel::BoundaryNotPresent(
                    advance_absent_text(m1@.new_coverage->0.boundary_id),
                )
            },
        },
{
    proof {
        reveal(<PassStart as View>::view);
        reveal(<PassWork as View>::view);
        reveal(delta_input);
    }
    broadcast use group_views;

    let new_boundary_id: Option<String> = match &m1.new_coverage {
        Some(end) => {
            if end.boundary_id.as_str().unicode_len() == 0 || !holds_block(
                &start.live,
                &end.boundary_id,
            ) {
                let mut text = owned("coverage-extending delta advanced the anchor to ");
                text.append(&quoted_text(&end.boundary_id));
                text.append(
                    ", but no live block carries that id; the anchor must be the flat block id (`<mid>#<index>`) of the last covered block",
                );
                return Err(TransformError::BoundaryNotPresent(text));
            }
            Some(end.boundary_id.clone())
        },
        None => None,
    };
    let mut units = new_reduction_units(
        &work.core,
        reductions,
        &start.live,
        start.meta.coverage_ordinal,
    );
    let mut rendered_units: Vec<FrozenUnit> = Vec::new();
    rendered_units.push(render_m1_body(&m1.body));
    assert(views(rendered_units@) =~= seq![region("m1"@, m1@.body)]);
    rendered_units.append(&mut units);
    Ok(
        StepInput {
            proposed: StepAction::Soft,
            boundary_present: start.boundary_token.clone(),
            rendered_units,
            new_boundary_id,
        },
    )
}

/// The state after a delta was frozen: coverage and boundary advance together, and the
/// reductions that became covered go.
#[verifier::opaque]
pub open spec fn delta_done(
    work: PassWorkModel,
    start: PassStartModel,
    stepped: CoreStateModel,
    m1: M1CompositionModel,
) -> PassWorkModel {
    match m1.new_coverage {
        Some(end) => PassWorkModel {
            core: pruned(stepped, start.live, Some(end.ordinal)),
            meta: ModuleMetaModel {
                coverage_ordinal: Some(end.ordinal),
                m1_revision: work.m1_digest,
                ..work.meta
            },
            ..work
        },
        None => PassWorkModel {
            core: stepped,
            meta: ModuleMetaModel { m1_revision: work.m1_digest, ..work.meta },
            ..work
        },
    }
}

/// Records what a delta covers.
pub fn finish_delta(work: &mut PassWork, start: &PassStart, stepped: CoreState, m1: &M1Composition)
    ensures
        final(work)@ == delta_done(old(work)@, start@, stepped@, m1@),
{
    proof {
        reveal(<PassStart as View>::view);
        reveal(<PassWork as View>::view);
        reveal(delta_done);
    }
    work.core = stepped;
    match &m1.new_coverage {
        Some(end) => {
            work.meta.coverage_ordinal = Some(end.ordinal);
            prune_covered_red_units(&mut work.core, &start.live, Some(end.ordinal));
        },
        None => {},
    }
    work.meta.m1_revision = work.m1_digest;
}

// --- replaying ------------------------------------------------------------------------

/// Prepares the step of a pass that replays what is frozen.
pub fn prepare_replay(start: &PassStart) -> (r: StepInput)
    ensures
        r@ == (StepInputModel {
            proposed: StepAction::SoftPlus,
            boundary_present: start@.boundary_token,
            rendered_units: Seq::empty(),
            new_boundary_id: None,
        }),
{
    proof {
        reveal(<PassStart as View>::view);
    }
    broadcast use group_views;

    StepInput {
        proposed: StepAction::SoftPlus,
        boundary_present: start.boundary_token.clone(),
        rendered_units: Vec::new(),
        new_boundary_id: None,
    }
}

/// Takes over the cache behind a step that replayed.
pub fn finish_replay(work: &mut PassWork, stepped: CoreState)
    ensures
        final(work)@ == (PassWorkModel { core: stepped@, ..old(work)@ }),
{
    proof {
        reveal(<PassWork as View>::view);
    }
    work.core = stepped;
}

// --- settling -------------------------------------------------------------------------

/// The largest ordinal of some items, zero where there is none.
pub open spec fn last_ordinal(items: Seq<SelItemModel>) -> u64
    decreases items.len(),
{
    if items.len() == 0 {
        0
    } else {
        let rest = last_ordinal(items.drop_last());
        if rest >= items.last().ordinal {
            rest
        } else {
            items.last().ordinal
        }
    }
}

fn largest_ordinal(items: &Vec<SelItem>) -> (r: u64)
    ensures
        r == last_ordinal(views(items@)),
{
    broadcast use group_views;

    let ghost all = views(items@);
    let mut r: u64 = 0;
    let mut i: usize = 0;
    while i < items.len()
        invariant
            i <= items.len(),
            all == views(items@),
            r == last_ordinal(all.take(i as int)),
        decreases items.len() - i,
    {
        proof {
            take_next(all, i as int);
        }
        assert(all[i as int] == items@[i as int]@);
        if items[i].ordinal > r {
            r = items[i].ordinal;
        }
        i += 1;
    }
    proof {
        take_all(all);
    }
    r
}

/// The record with the watermarks of an execution: a decision to execute raises the
/// execution watermark, and an emergency that cut something is remembered.
#[verifier::opaque]
pub open spec fn watermarked(
    meta: ModuleMetaModel,
    start: PassStartModel,
    gate: PassGateModel,
    pass: PassDecision,
    bust: bool,
    pending: bool,
) -> ModuleMetaModel {
    let reached = last_ordinal(gate.tail);
    let emergency = bust && pending && gate.selection_class == PassClass::EmergencyForce;
    ModuleMetaModel {
        last_execute_ordinal: if pass != PassDecision::Defer && !start.core.reconcile_pending
            && reached > meta.last_execute_ordinal {
            reached
        } else {
            meta.last_execute_ordinal
        },
        last_emergency_input_sample: if emergency {
            start.usage.current_total_input_tokens
        } else {
            meta.last_emergency_input_sample
        },
        has_prior_emergency_drop: emergency || meta.has_prior_emergency_drop,
        ..meta
    }
}

/// The execution watermark never falls while a pass settles.
pub proof fn the_watermark_rises(
    meta: ModuleMetaModel,
    start: PassStartModel,
    gate: PassGateModel,
    pass: PassDecision,
    bust: bool,
    pending: bool,
)
    ensures
        watermarked(meta, start, gate, pass, bust, pending).last_execute_ordinal
            >= meta.last_execute_ordinal,
{
    reveal(watermarked);
}

fn mark_watermarks(
    meta: &mut ModuleMeta,
    start: &PassStart,
    gate: &PassGate,
    pass: PassDecision,
    bust: bool,
    pending: bool,
)
    ensures
        final(meta)@ == watermarked(old(meta)@, start@, gate@, pass, bust, pending),
{
    proof {
        reveal(<PassStart as View>::view);
        reveal(<PassGate as View>::view);
        reveal(watermarked);
    }
    if pass != PassDecision::Defer && !start.core.reconcile_pending {
        let reached: u64 = largest_ordinal(&gate.tail);
        if reached > meta.last_execute_ordinal {
            meta.last_execute_ordinal = reached;
        }
    }
    if bust && pending && gate.selection_class == PassClass::EmergencyForce {
        meta.last_emergency_input_sample = start.usage.current_total_input_tokens;
        meta.has_prior_emergency_drop = true;
    }
}

/// Settles the watermarks and the todo pair.
pub fn settle(
    work: &mut PassWork,
    start: &PassStart,
    gate: &PassGate,
    pass: PassDecision,
    plan: &PassPlan,
    pending: bool,
    injection: &InjectionOutcome,
    request: &TransformRequest,
) -> (r: Result<(), TransformError>)
    ensures
        ({
            let marked = watermarked(
                old(work)@.meta,
                start@,
                gate@,
                pass,
                busts(plan@),
                pending,
            );
            let advanced = todo_advanced(
                marked,
                injection@,
                busts(plan@),
                start@.meta.coverage_ordinal,
                old(work)@.coverage_shrunk,
                request@.messages,
            );
            match (r, advanced) {
                (Ok(_), Ok(meta)) => final(work)@ == (PassWorkModel { meta, ..old(work)@ }),
                (Err(e), Err(fault)) => e@ == fault && final(work)@ == (PassWorkModel {
                    meta: marked,
                    ..old(work)@
                }),
                _ => false,
            }
        }),
{
    proof {
        reveal(<PassStart as View>::view);
        reveal(<PassGate as View>::view);
        reveal(<PassWork as View>::view);
    }
    let bust: bool = is_bust(plan);
    mark_watermarks(&mut work.meta, start, gate, pass, bust, pending);
    advance_synthetic_todo(
        &mut work.meta,
        injection,
        bust,
        start.meta.coverage_ordinal,
        work.coverage_shrunk,
        &request.messages,
    )
}

// --- the end --------------------------------------------------------------------------

/// Whether a pass changed the state of the session, or is to cut its history back.
pub open spec fn pass_changed(work: PassWorkModel, start: PassStartModel) -> bool {
    work.core != start.core || work.meta != start.meta || work.cut is Some
}

/// The drops that a pass consumed.
pub open spec fn consumed(start: PassStartModel, gate: PassGateModel, plan: PassPlanModel) -> Seq<
    i64,
> {
    if busts(plan) && gate.producer_gate {
        start.pending_drops.map_values(|d: PendingAgentDropModel| d.id)
    } else {
        Seq::empty()
    }
}

/// The record that is committed.
#[verifier::opaque]
pub open spec fn committed_meta(work: PassWorkModel, now_ms: i64) -> ModuleMetaModel {
    ModuleMetaModel { last_committed_pass_at_ms: now_ms, ..work.meta }
}

/// The answer of a pass.
#[verifier::opaque]
pub open spec fn answer(
    request: TransformRequestModel,
    work: PassWorkModel,
    plan: PassPlanModel,
    row_version: u64,
    committed: bool,
    messages: Seq<CkWireMessageModel>,
) -> TransformResponseModel {
    TransformResponseModel {
        status: TransformStatus::Served,
        served_from: ServedFrom::Transform,
        full_array_fingerprint: request.full_array_fingerprint,
        action: action_name(plan),
        boundary_id: work.core.boundary_id,
        reconcile_pending: work.core.reconcile_pending,
        version: work.core.version,
        row_version,
        committed,
        coverage_ordinal: work.meta.coverage_ordinal,
        historian: None,
        ck_messages: Some(messages),
    }
}

fn drop_number(d: &PendingAgentDrop) -> (r: i64)
    ensures
        r == d@.id,
{
    d.id
}

/// Ends a pass: writes the cut that waits, commits what changed behind it, and answers with
/// the output. Where nothing changed, and where the pass fails, nothing is written.
pub fn finish_pass(
    store: &mut McStore,
    request: &TransformRequest,
    start: &PassStart,
    gate: &PassGate,
    plan: &PassPlan,
    work: &PassWork,
    messages: Vec<CkWireMessage>,
    now_ms: i64,
) -> (r: Result<TransformResponse, TransformError>)
    ensures
        ({
            let s = old(store)@;
            let session = request@.session_id;
            let changed = pass_changed(work@, start@);
            let conflict = cut_conflicts(s, session, work@.expected, work@.cut);
            let t = behind_cut(s, session, work@.cut);
            match r {
                Ok(response) => if changed {
                    &&& !conflict && cut_fits(s, session, work@.cut)
                    &&& response@ == answer(
                        request@,
                        work@,
                        plan@,
                        next_version(t, session),
                        true,
                        views(messages@),
                    )
                    &&& final(store)@ == (McStoreModel {
                        drops: without_drops(t.drops, session, consumed(start@, gate@, plan@)),
                        ..with_cache(
                            t,
                            session,
                            next_version(t, session),
                            work@.core,
                            committed_meta(work@, now_ms),
                        )
                    })
                } else {
                    &&& final(store)@ == s
                    &&& response@ == answer(
                        request@,
                        work@,
                        plan@,
                        match start@.row_version {
                            Some(v) => v,
                            None => 0,
                        },
                        false,
                        views(messages@),
                    )
                },
                Err(e) => {
                    &&& changed && (conflict || !cut_fits(s, session, work@.cut))
                    &&& e@ == TransformErrorModel::Store(
                        if conflict {
                            McStoreError::CasConflict {
                                expected: work@.expected,
                                found: version_found(s, session),
                            }
                        } else {
                            McStoreError::Store(StoreError::Exhausted)
                        },
                    )
                    &&& final(store)@ == s
                },
            }
        }),
        well_formed(old(store)@) ==> well_formed(final(store)@),
        commands_kept(old(store)@, final(store)@),
{
    proof {
        reveal(<PassStart as View>::view);
        reveal(<PassGate as View>::view);
        reveal(<PassWork as View>::view);
        reveal(answer);
        reveal(committed_meta);
    }
    broadcast use group_views;

    let changed: bool = !(work.core.same(&start.core) && work.meta.same(&start.meta))
        || work.cut.is_some();
    let row_version: u64 = if changed {
        let mut meta = work.meta.dup();
        meta.last_committed_pass_at_ms = now_ms;
        let ids: Vec<i64> = if is_bust(plan) && gate.producer_gate {
            let ids = map_rows(
                &start.pending_drops,
                drop_number,
                Ghost(|d: PendingAgentDropModel| d.id),
            );
            assert(views(ids@) =~= ids@);
            ids
        } else {
            Vec::new()
        };
        match store.commit_behind_cut(
            &request.session_id,
            work.cut,
            work.expected,
            &work.core,
            &meta,
            ids.as_slice(),
        ) {
            Ok(v) => v,
            Err(e) => {
                return Err(TransformError::Store(e));
            },
        }
    } else {
        match start.row_version {
            Some(v) => v,
            None => 0,
        }
    };
    Ok(
        TransformResponse {
            status: TransformStatus::Served,
            served_from: ServedFrom::Transform,
            full_array_fingerprint: opt_dup(&request.full_array_fingerprint),
            action: action_str(plan),
            boundary_id: work.core.boundary_id.clone(),
            reconcile_pending: work.core.reconcile_pending,
            version: work.core.version,
            row_version,
            committed: changed,
            coverage_ordinal: work.meta.coverage_ordinal,
            historian: None,
            ck_messages: Some(messages),
        },
    )
}

} // verus!
