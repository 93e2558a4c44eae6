//! A transform pass as a machine: what it waits for, and what each answer leads to.
//!
//! The deciders and composers stand outside. Whoever drives a pass reads its stage, asks
//! the one that the stage names, and hands the answer back as an event.

use vstd::prelude::*;

use crate::rows::{group_views, opt_view, row_of, views};
use crate::store::cache::{next_version, version_found, version_left, version_of, with_cache};
use crate::store::drops::{commands_kept, without_drops};
use crate::store::errors::{McStoreError, StoreError};
use crate::store::integrity::well_formed;
use crate::store::records::{StoredCompartment, StoredCompartmentModel};
use crate::store::revert::{behind_cut, cut_conflicts, cut_fits, dropped, surviving, truncation};
use crate::store::{McStore, McStoreModel};
use crate::meta::{CoreState, CoreStateModel, ModuleMetaModel};
use crate::transform::errors::{retried, starts_over, TransformError, TransformErrorModel};
use crate::transform::output::{
    build_output, output_of, reductions_to_render, wanted_reductions, ReductionRequest,
    ReductionRequestModel,
};
use crate::transform::pass::{
    advance_absent, advance_absent_text, answer, begin_pass, begin_work, busts, check_fold,
    check_refold, classified, classify_pass, cleared, committed_meta, consumed, cut_target,
    delta_done, delta_input, finish_delta, finish_fold, finish_pass, finish_replay, fold_input,
    fold_step, folded, gated, mint_absent, open_gate, pass_changed, prepare_delta, prepare_fold,
    prepare_replay, recut, recut_absent_text, recut_work, refolded, settle, start_fault, started,
    waiting_cut, watermarked, work_begun, FoldStep, PassGate, PassGateModel, PassStart,
    PassStartModel, PassWork, PassWorkModel,
};
use crate::transform::reductions::contradicts;
use crate::transform::todo::{todo_advanced, InjectionOutcome, InjectionOutcomeModel};
use crate::transform::types::{
    ClassifierInput, FlatProjection, FlatProjectionModel, M0Composition, M0CompositionModel,
    M1Composition, M1CompositionModel, PassDecision, PassPlan, PassPlanModel, ReducedBlock,
    ReducedBlockModel, ReductionDecision, ReductionDecisionModel, SchedulerOutcome,
    SchedulerOutcomeModel, StepAction, StepInput, StepInputModel, TransformRequest,
    TransformRequestModel, TransformResponse, TransformResponseModel,
};
use crate::wire::{CkWireMessage, CkWireMessageModel};

verus! {

// --- what a pass is about -------------------------------------------------------------

/// What a pass is about; the same from its beginning to its end, but for the attempt.
#[derive(Debug, PartialEq, Eq)]
pub struct PassJob {
    pub request: TransformRequest,
    pub project_path: String,
    /// The delta block that stands for no delta.
    pub placeholder: String,
    pub now_ms: i64,
    /// How often the pass started over.
    pub attempt: u32,
}

/// What a [`PassJob`] holds.
pub struct PassJobModel {
    pub request: TransformRequestModel,
    pub project_path: Seq<char>,
    pub placeholder: Seq<char>,
    pub now_ms: i64,
    pub attempt: u32,
}

impl View for PassJob {
    type V = PassJobModel;

    #[verifier::opaque]
    open spec fn view(&self) -> PassJobModel {
        PassJobModel {
            request: self.request@,
            project_path: self.project_path@,
            placeholder: self.placeholder@,
            now_ms: self.now_ms,
            attempt: self.attempt,
        }
    }
}

proof fn job_view(x: PassJob)
    ensures
        x@ == (PassJobModel {
            request: x.request@,
            project_path: x.project_path@,
            placeholder: x.placeholder@,
            now_ms: x.now_ms,
            attempt: x.attempt,
        }),
{
    reveal(<PassJob as View>::view);
}

/// What is read at every pass, whatever its plan.
#[derive(Debug, PartialEq, Eq)]
pub struct PassSignals {
    /// The render configuration with the state of the memories folded in.
    pub render_config: String,
    /// The digest of what a delta is rendered from.
    pub m1_digest: u64,
    pub outcome: SchedulerOutcome,
}

/// What a [`PassSignals`] holds.
pub struct PassSignalsModel {
    pub render_config: Seq<char>,
    pub m1_digest: u64,
    pub outcome: SchedulerOutcomeModel,
}

impl View for PassSignals {
    type V = PassSignalsModel;

    open spec fn view(&self) -> PassSignalsModel {
        PassSignalsModel {
            render_config: self.render_config@,
            m1_digest: self.m1_digest,
            outcome: self.outcome@,
        }
    }
}

/// A pass that has read the conversation and the state of its session.
#[derive(Debug, PartialEq, Eq)]
pub struct Begun {
    pub projection: FlatProjection,
    pub start: PassStart,
}

/// What a [`Begun`] holds.
pub struct BegunModel {
    pub projection: FlatProjectionModel,
    pub start: PassStartModel,
}

impl View for Begun {
    type V = BegunModel;

    #[verifier::opaque]
    open spec fn view(&self) -> BegunModel {
        BegunModel { projection: self.projection@, start: self.start@ }
    }
}

proof fn begun_view(x: Begun)
    ensures
        x@ == (BegunModel { projection: x.projection@, start: x.start@ }),
{
    reveal(<Begun as View>::view);
}

/// A pass that knows what the scheduler decided.
#[derive(Debug, PartialEq, Eq)]
pub struct Gated {
    pub begun: Begun,
    pub signals: PassSignals,
    pub gate: PassGate,
}

/// What a [`Gated`] holds.
pub struct GatedModel {
    pub begun: BegunModel,
    pub signals: PassSignalsModel,
    pub gate: PassGateModel,
}

impl View for Gated {
    type V = GatedModel;

    #[verifier::opaque]
    open spec fn view(&self) -> GatedModel {
        GatedModel { begun: self.begun@, signals: self.signals@, gate: self.gate@ }
    }
}

proof fn gated_view(x: Gated)
    ensures
        x@ == (GatedModel { begun: x.begun@, signals: x.signals@, gate: x.gate@ }),
{
    reveal(<Gated as View>::view);
}

/// A pass that knows its reductions.
#[derive(Debug, PartialEq, Eq)]
pub struct Chosen {
    pub gated: Gated,
    pub reductions: Vec<ReductionDecision>,
    /// What decides the plan.
    pub input: ClassifierInput,
}

/// What a [`Chosen`] holds.
pub struct ChosenModel {
    pub gated: GatedModel,
    pub reductions: Seq<ReductionDecisionModel>,
    pub input: ClassifierInput,
}

impl View for Chosen {
    type V = ChosenModel;

    #[verifier::opaque]
    open spec fn view(&self) -> ChosenModel {
        ChosenModel {
            gated: self.gated@,
            reductions: views(self.reductions@),
            input: self.input,
        }
    }
}

proof fn chosen_view(x: Chosen)
    ensures
        x@ == (ChosenModel {
            gated: x.gated@,
            reductions: views(x.reductions@),
            input: x.input,
        }),
{
    reveal(<Chosen as View>::view);
}

/// A pass that follows its plan.
#[derive(Debug, PartialEq, Eq)]
pub struct Working {
    pub chosen: Chosen,
    pub plan: PassPlan,
    pub work: PassWork,
}

/// What a [`Working`] holds.
pub struct WorkingModel {
    pub chosen: ChosenModel,
    pub plan: PassPlanModel,
    pub work: PassWorkModel,
}

impl View for Working {
    type V = WorkingModel;

    #[verifier::opaque]
    open spec fn view(&self) -> WorkingModel {
        WorkingModel { chosen: self.chosen@, plan: self.plan@, work: self.work@ }
    }
}

proof fn working_view(x: Working)
    ensures
        x@ == (WorkingModel { chosen: x.chosen@, plan: x.plan@, work: x.work@ }),
{
    reveal(<Working as View>::view);
}

impl WorkingModel {
    /// What the pass began with.
    pub open spec fn start(self) -> PassStartModel {
        self.chosen.gated.begun.start
    }

    /// The flattened conversation.
    pub open spec fn projection(self) -> FlatProjectionModel {
        self.chosen.gated.begun.projection
    }

    /// What the scheduler's decision means.
    pub open spec fn gate(self) -> PassGateModel {
        self.chosen.gated.gate
    }

    /// What was read at the beginning.
    pub open spec fn signals(self) -> PassSignalsModel {
        self.chosen.gated.signals
    }

    /// The pass with its work advanced.
    pub open spec fn with_work(self, work: PassWorkModel) -> WorkingModel {
        WorkingModel { work, ..self }
    }
}

/// A pass that is to cut the history back.
#[derive(Debug, PartialEq, Eq)]
pub struct Recut {
    pub on: Working,
    /// The sequence that is kept.
    pub keep: i64,
    /// The compartments up to that sequence, oldest first. The store still holds the others.
    pub history: Vec<StoredCompartment>,
}

/// What a [`Recut`] holds.
pub struct RecutModel {
    pub on: WorkingModel,
    pub keep: i64,
    pub history: Seq<StoredCompartmentModel>,
}

impl View for Recut {
    type V = RecutModel;

    #[verifier::opaque]
    open spec fn view(&self) -> RecutModel {
        RecutModel { on: self.on@, keep: self.keep, history: views(self.history@) }
    }
}

proof fn recut_view(x: Recut)
    ensures
        x@ == (RecutModel { on: x.on@, keep: x.keep, history: views(x.history@) }),
{
    reveal(<Recut as View>::view);
}

/// A pass about to freeze a history.
#[derive(Debug, PartialEq, Eq)]
pub struct HistoryStep {
    pub on: Working,
    pub comp: M0Composition,
    pub input: StepInput,
}

/// What a [`HistoryStep`] holds.
pub struct HistoryStepModel {
    pub on: WorkingModel,
    pub comp: M0CompositionModel,
    pub input: StepInputModel,
}

impl View for HistoryStep {
    type V = HistoryStepModel;

    #[verifier::opaque]
    open spec fn view(&self) -> HistoryStepModel {
        HistoryStepModel { on: self.on@, comp: self.comp@, input: self.input@ }
    }
}

proof fn history_step_view(x: HistoryStep)
    ensures
        x@ == (HistoryStepModel { on: x.on@, comp: x.comp@, input: x.input@ }),
{
    reveal(<HistoryStep as View>::view);
}

/// A pass about to freeze a delta.
#[derive(Debug, PartialEq, Eq)]
pub struct DeltaStep {
    pub on: Working,
    pub delta: M1Composition,
    pub input: StepInput,
}

/// What a [`DeltaStep`] holds.
pub struct DeltaStepModel {
    pub on: WorkingModel,
    pub delta: M1CompositionModel,
    pub input: StepInputModel,
}

impl View for DeltaStep {
    type V = DeltaStepModel;

    #[verifier::opaque]
    open spec fn view(&self) -> DeltaStepModel {
        DeltaStepModel { on: self.on@, delta: self.delta@, input: self.input@ }
    }
}

proof fn delta_step_view(x: DeltaStep)
    ensures
        x@ == (DeltaStepModel { on: x.on@, delta: x.delta@, input: x.input@ }),
{
    reveal(<DeltaStep as View>::view);
}

/// A pass about to replay what is frozen.
#[derive(Debug, PartialEq, Eq)]
pub struct ReplayStep {
    pub on: Working,
    pub input: StepInput,
}

/// What a [`ReplayStep`] holds.
pub struct ReplayStepModel {
    pub on: WorkingModel,
    pub input: StepInputModel,
}

impl View for ReplayStep {
    type V = ReplayStepModel;

    #[verifier::opaque]
    open spec fn view(&self) -> ReplayStepModel {
        ReplayStepModel { on: self.on@, input: self.input@ }
    }
}

proof fn replay_step_view(x: ReplayStep)
    ensures
        x@ == (ReplayStepModel { on: x.on@, input: x.input@ }),
{
    reveal(<ReplayStep as View>::view);
}

/// A pass about to assemble its output.
#[derive(Debug, PartialEq, Eq)]
pub struct Rendering {
    pub on: Working,
    pub wanted: Vec<ReductionRequest>,
}

/// What a [`Rendering`] holds.
pub struct RenderingModel {
    pub on: WorkingModel,
    pub wanted: Seq<ReductionRequestModel>,
}

impl View for Rendering {
    type V = RenderingModel;

    #[verifier::opaque]
    open spec fn view(&self) -> RenderingModel {
        RenderingModel { on: self.on@, wanted: views(self.wanted@) }
    }
}

proof fn rendering_view(x: Rendering)
    ensures
        x@ == (RenderingModel { on: x.on@, wanted: views(x.wanted@) }),
{
    reveal(<Rendering as View>::view);
}

/// The result of a pass, with what its caller may read on.
#[derive(Debug, PartialEq, Eq)]
pub struct TransformWithProjection {
    pub response: TransformResponse,
    pub projection: FlatProjection,
    pub scheduler_pass: PassDecision,
}

/// What a [`TransformWithProjection`] holds.
pub struct TransformWithProjectionModel {
    pub response: TransformResponseModel,
    pub projection: FlatProjectionModel,
    pub scheduler_pass: PassDecision,
}

impl View for TransformWithProjection {
    type V = TransformWithProjectionModel;

    #[verifier::opaque]
    open spec fn view(&self) -> TransformWithProjectionModel {
        TransformWithProjectionModel {
            response: self.response@,
            projection: self.projection@,
            scheduler_pass: self.scheduler_pass,
        }
    }
}

proof fn result_parts(x: TransformWithProjection)
    ensures
        x@ == (TransformWithProjectionModel {
            response: x.response@,
            projection: x.projection@,
            scheduler_pass: x.scheduler_pass,
        }),
{
    reveal(<TransformWithProjection as View>::view);
}

// --- stages and events ----------------------------------------------------------------

/// A part of a pass that a proof looks into only where it needs to.
#[derive(Debug, PartialEq, Eq)]
pub struct Held<T> {
    pub value: T,
}

impl<T: View> View for Held<T> {
    type V = Held<T::V>;

    open spec fn view(&self) -> Held<T::V> {
        Held { value: self.value@ }
    }
}

/// Sets a part of a pass aside.
pub open spec fn held<T>(value: T) -> Held<T> {
    Held { value }
}

/// What a pass waits for.
#[derive(Debug, PartialEq, Eq)]
pub enum PassStage {
    /// The flattened conversation.
    Project,
    /// What is read at every pass.
    Signal(Held<Begun>),
    /// A selection of reductions. Only a pass that may produce reductions asks for one.
    Select(Held<Gated>),
    /// The plan, and the todo list that the tail ends with.
    Plan(Held<Chosen>),
    /// The whole history, rendered.
    Compose(Held<Working>),
    /// The whole history, rendered from the compartments that a cut is to leave.
    Recompose(Held<Recut>),
    /// The cache behind the step that freezes the history.
    FreezeHistory(Held<HistoryStep>),
    /// The delta, rendered.
    ComposeDelta(Held<Working>),
    /// The cache behind the step that freezes the delta.
    FreezeDelta(Held<DeltaStep>),
    /// The cache behind the step that replays what is frozen.
    Replay(Held<ReplayStep>),
    /// What becomes of the todo pair.
    Inject(Held<Working>),
    /// The shorter form of each of these blocks.
    Render(Held<Rendering>),
    /// Nothing: the pass was served.
    Served(Held<TransformWithProjection>),
    /// Nothing: the pass failed.
    Failed(TransformError),
}

/// What a [`PassStage`] holds.
pub enum PassStageModel {
    Project,
    Signal(Held<BegunModel>),
    Select(Held<GatedModel>),
    Plan(Held<ChosenModel>),
    Compose(Held<WorkingModel>),
    Recompose(Held<RecutModel>),
    FreezeHistory(Held<HistoryStepModel>),
    ComposeDelta(Held<WorkingModel>),
    FreezeDelta(Held<DeltaStepModel>),
    Replay(Held<ReplayStepModel>),
    Inject(Held<WorkingModel>),
    Render(Held<RenderingModel>),
    Served(Held<TransformWithProjectionModel>),
    Failed(TransformErrorModel),
}

impl View for PassStage {
    type V = PassStageModel;

    open spec fn view(&self) -> PassStageModel {
        match *self {
            PassStage::Project => PassStageModel::Project,
            PassStage::Signal(b) => PassStageModel::Signal(b@),
            PassStage::Select(g) => PassStageModel::Select(g@),
            PassStage::Plan(c) => PassStageModel::Plan(c@),
            PassStage::Compose(w) => PassStageModel::Compose(w@),
            PassStage::Recompose(x) => PassStageModel::Recompose(x@),
            PassStage::FreezeHistory(x) => PassStageModel::FreezeHistory(x@),
            PassStage::ComposeDelta(w) => PassStageModel::ComposeDelta(w@),
            PassStage::FreezeDelta(x) => PassStageModel::FreezeDelta(x@),
            PassStage::Replay(x) => PassStageModel::Replay(x@),
            PassStage::Inject(w) => PassStageModel::Inject(w@),
            PassStage::Render(x) => PassStageModel::Render(x@),
            PassStage::Served(r) => PassStageModel::Served(r@),
            PassStage::Failed(e) => PassStageModel::Failed(e@),
        }
    }
}

/// What an answer that may be an error holds.
pub open spec fn result_view<T: View, E: View>(r: Result<T, E>) -> Result<T::V, E::V> {
    match r {
        Ok(t) => Ok(t@),
        Err(e) => Err(e@),
    }
}

/// A transform pass.
#[derive(Debug, PartialEq, Eq)]
pub struct TransformPass {
    pub job: PassJob,
    pub stage: PassStage,
}

/// What a [`TransformPass`] holds.
pub struct TransformPassModel {
    pub job: PassJobModel,
    pub stage: PassStageModel,
}

impl View for TransformPass {
    type V = TransformPassModel;

    open spec fn view(&self) -> TransformPassModel {
        TransformPassModel { job: self.job@, stage: self.stage@ }
    }
}

// --- what each answer leads to --------------------------------------------------------

/// A pass at a stage.
pub open spec fn at(job: PassJobModel, stage: PassStageModel) -> TransformPassModel {
    TransformPassModel { job, stage }
}

/// Where a failure leads: a pass that another writer overtook starts over, up to a bound.
pub open spec fn fails(job: PassJobModel, e: TransformErrorModel) -> TransformPassModel {
    if retried(e, job.attempt) {
        at(PassJobModel { attempt: (job.attempt + 1) as u32, ..job }, PassStageModel::Project)
    } else {
        at(job, PassStageModel::Failed(e))
    }
}

/// Where the flattened conversation leads.
pub open spec fn on_projected(
    job: PassJobModel,
    s: McStoreModel,
    projection: FlatProjectionModel,
) -> TransformPassModel {
    match start_fault(s, job.request, projection) {
        Some(e) => fails(job, e),
        None => at(
            job,
            PassStageModel::Signal(held(
                BegunModel {
                    projection,
                    start: started(s, job.request, projection, job.project_path),
                },
            )),
        ),
    }
}

/// Where a selection of reductions leads.
pub open spec fn on_selected(
    job: PassJobModel,
    g: GatedModel,
    reductions: Seq<ReductionDecisionModel>,
) -> TransformPassModel {
    let start = g.begun.start;
    if exists|i: int|
        0 <= i < reductions.len() && contradicts(start.core, #[trigger] reductions[i]) {
        fails(job, TransformErrorModel::ReductionConflict)
    } else {
        at(
            job,
            PassStageModel::Plan(held(
                ChosenModel {
                    gated: g,
                    reductions,
                    input: classified(start, g.gate, reductions, g.signals.m1_digest),
                },
            )),
        )
    }
}

/// Where the signals lead: reductions are asked for only where they may be produced.
pub open spec fn on_signals(job: PassJobModel, b: BegunModel, signals: PassSignalsModel) ->
    TransformPassModel {
    let g = GatedModel {
        begun: b,
        signals,
        gate: gated(b.start, signals.render_config, signals.outcome),
    };
    if g.gate.producer_gate {
        at(job, PassStageModel::Select(held(g)))
    } else {
        on_selected(job, g, Seq::empty())
    }
}

/// Where a plan leads.
pub open spec fn on_planned(
    job: PassJobModel,
    c: ChosenModel,
    plan: PassPlanModel,
    captured: Option<Seq<char>>,
) -> TransformPassModel {
    let begun = c.gated.begun;
    let w = WorkingModel {
        chosen: c,
        plan,
        work: work_begun(
            begun.start,
            job.request.usage,
            begun.projection,
            c.gated.signals.outcome,
            plan,
            captured,
            c.gated.signals.m1_digest,
        ),
    };
    match plan {
        PassPlanModel::Reject(why) => fails(job, TransformErrorModel::UnknownShape(why)),
        PassPlanModel::Hard | PassPlanModel::MigrateHard => at(job, PassStageModel::Compose(held(w))),
        PassPlanModel::Soft => at(job, PassStageModel::ComposeDelta(held(w))),
        PassPlanModel::Defer => at(
            job,
            PassStageModel::Replay(held(
                ReplayStepModel {
                    on: w,
                    input: StepInputModel {
                        proposed: StepAction::SoftPlus,
                        boundary_present: begun.start.boundary_token,
                        rendered_units: Seq::empty(),
                        new_boundary_id: None,
                    },
                },
            )),
        ),
    }
}

/// Where a composition that may be frozen leads.
pub open spec fn freezes(job: PassJobModel, w: WorkingModel, comp: M0CompositionModel) ->
    TransformPassModel {
    at(
        job,
        PassStageModel::FreezeHistory(held(
            HistoryStepModel {
                on: w.with_work(PassWorkModel { core: cleared(w.work.core), ..w.work }),
                comp,
                input: fold_input(
                    w.work.core,
                    w.start(),
                    comp,
                    w.chosen.reductions,
                    job.placeholder,
                ),
            },
        )),
    )
}

/// Where a cut leads. It is written when the pass is served, and the history that it leaves
/// is handed out until then.
pub open spec fn cuts(job: PassJobModel, s: McStoreModel, w: WorkingModel) -> TransformPassModel {
    let session = job.request.session_id;
    let keep = cut_target(s, session, w.start().live);
    let conflict = row_of(s.cache, session) is None || w.work.expected != version_of(s, session);
    if conflict {
        fails(
            job,
            TransformErrorModel::Store(
                McStoreError::CasConflict {
                    expected: w.work.expected,
                    found: version_found(s, session),
                },
            ),
        )
    } else if dropped(s, session, keep).len() > 0 && !version_left(s, session) {
        fails(job, TransformErrorModel::Store(McStoreError::Store(StoreError::Exhausted)))
    } else {
        let outcome = truncation(s, session, keep, row_of(s.cache, session)->0).1;
        at(
            job,
            PassStageModel::Recompose(held(
                RecutModel {
                    on: w.with_work(
                        recut_work(w.work, outcome, waiting_cut(s, session, keep)),
                    ),
                    keep,
                    history: surviving(s, session, keep),
                },
            )),
        )
    }
}

/// Where a composition leads.
pub open spec fn on_composed(
    job: PassJobModel,
    s: McStoreModel,
    w: WorkingModel,
    comp: M0CompositionModel,
) -> TransformPassModel {
    match fold_step(comp, w.start().live, w.start().core.reconcile_pending) {
        Err(e) => fails(job, e),
        Ok(FoldStep::Ready) => freezes(job, w, comp),
        Ok(FoldStep::Recut) => cuts(job, s, w),
    }
}

/// Where a composition behind a cut leads.
pub open spec fn on_recomposed(
    job: PassJobModel,
    w: WorkingModel,
    keep: i64,
    comp: M0CompositionModel,
    m1_digest: u64,
) -> TransformPassModel {
    if mint_absent(comp, w.start().live) {
        fails(
            job,
            TransformErrorModel::BoundaryNotPresent(recut_absent_text(keep, comp.boundary_id)),
        )
    } else {
        freezes(job, w.with_work(refolded(w.work, comp, m1_digest)), comp)
    }
}

/// Where the cache behind a frozen history leads.
pub open spec fn on_folded(
    job: PassJobModel,
    w: WorkingModel,
    comp: M0CompositionModel,
    core: CoreStateModel,
    recaptured: Option<Seq<char>>,
) -> TransformPassModel {
    at(
        job,
        PassStageModel::Inject(held(
            w.with_work(
                folded(
                    w.work,
                    w.start(),
                    core,
                    comp,
                    w.signals().render_config,
                    job.now_ms,
                    recaptured,
                ),
            ),
        )),
    )
}

/// Where a delta leads.
pub open spec fn on_delta(job: PassJobModel, w: WorkingModel, delta: M1CompositionModel) ->
    TransformPassModel {
    if advance_absent(delta, w.start().live) {
        fails(
            job,
            TransformErrorModel::BoundaryNotPresent(
                advance_absent_text(delta.new_coverage->0.boundary_id),
            ),
        )
    } else {
        at(
            job,
            PassStageModel::FreezeDelta(held(
                DeltaStepModel {
                    on: w,
                    delta,
                    input: delta_input(w.work.core, w.start(), delta, w.chosen.reductions),
                },
            )),
        )
    }
}

/// Where the cache behind a frozen delta leads.
pub open spec fn on_frozen_delta(
    job: PassJobModel,
    w: WorkingModel,
    delta: M1CompositionModel,
    core: CoreStateModel,
) -> TransformPassModel {
    at(
        job,
        PassStageModel::Inject(held(w.with_work(delta_done(w.work, w.start(), core, delta)))),
    )
}

/// Where the cache behind a replay leads.
pub open spec fn on_replayed(job: PassJobModel, w: WorkingModel, core: CoreStateModel) ->
    TransformPassModel {
    at(job, PassStageModel::Inject(held(w.with_work(PassWorkModel { core, ..w.work }))))
}

/// The record with the watermarks and the todo pair of a pass settled, or why it cannot be.
pub open spec fn settled(job: PassJobModel, w: WorkingModel, injection: InjectionOutcomeModel) ->
    Result<ModuleMetaModel, TransformErrorModel> {
    todo_advanced(
        watermarked(
            w.work.meta,
            w.start(),
            w.gate(),
            w.signals().outcome.pass,
            busts(w.plan),
            w.chosen.input.reductions_pending,
        ),
        injection,
        busts(w.plan),
        w.start().meta.coverage_ordinal,
        w.work.coverage_shrunk,
        job.request.messages,
    )
}

/// Where a decision on the todo pair leads.
pub open spec fn on_injected(job: PassJobModel, w: WorkingModel, injection: InjectionOutcomeModel) ->
    TransformPassModel {
    match settled(job, w, injection) {
        Err(e) => fails(job, e),
        Ok(meta) => at(
            job,
            PassStageModel::Render(
                held(
                    RenderingModel {
                        on: w.with_work(PassWorkModel { meta, ..w.work }),
                        wanted: reductions_to_render(w.work.core, w.projection().blocks),
                    },
                ),
            ),
        ),
    }
}

/// The end of a pass that answers with some messages: a cut that waits is written, and what
/// changed is committed behind it.
pub open spec fn ends(
    job: PassJobModel,
    s: McStoreModel,
    w: WorkingModel,
    messages: Seq<CkWireMessageModel>,
) -> (TransformPassModel, McStoreModel) {
    let session = job.request.session_id;
    let changed = pass_changed(w.work, w.start());
    let t = behind_cut(s, session, w.work.cut);
    let served = |row_version: u64|
        at(
            job,
            PassStageModel::Served(held(
                TransformWithProjectionModel {
                    response: answer(job.request, w.work, w.plan, row_version, changed, messages),
                    projection: w.projection(),
                    scheduler_pass: w.signals().outcome.pass,
                },
            )),
        );
    if !changed {
        (
            served(
                match w.start().row_version {
                    Some(v) => v,
                    None => 0,
                },
            ),
            s,
        )
    } else if cut_conflicts(s, session, w.work.expected, w.work.cut) {
        (
            fails(
                job,
                TransformErrorModel::Store(
                    McStoreError::CasConflict {
                        expected: w.work.expected,
                        found: version_found(s, session),
                    },
                ),
            ),
            s,
        )
    } else if !cut_fits(s, session, w.work.cut) {
        (
            fails(job, TransformErrorModel::Store(McStoreError::Store(StoreError::Exhausted))),
            s,
        )
    } else {
        (
            served(next_version(t, session)),
            McStoreModel {
                drops: without_drops(t.drops, session, consumed(w.start(), w.gate(), w.plan)),
                ..with_cache(
                    t,
                    session,
                    next_version(t, session),
                    w.work.core,
                    committed_meta(w.work, job.now_ms),
                )
            },
        )
    }
}

/// Where the shorter blocks lead. The output is assembled before anything is committed.
pub open spec fn on_rendered(
    job: PassJobModel,
    s: McStoreModel,
    w: WorkingModel,
    reduced: Seq<ReducedBlockModel>,
    strips_reasoning: bool,
) -> (TransformPassModel, McStoreModel) {
    match output_of(
        w.work.core,
        w.work.meta,
        job.request.messages,
        w.projection().blocks,
        reduced,
        strips_reasoning,
    ) {
        Err(e) => (fails(job, e), s),
        Ok(messages) => ends(job, s, w, messages),
    }
}

/// A pass that takes the flattened conversation in. What a pass does not wait for leads
/// nowhere, here and below.
pub open spec fn takes_projection(
    p: TransformPassModel,
    s: McStoreModel,
    r: Result<FlatProjectionModel, Seq<char>>,
) -> TransformPassModel {
    match p.stage {
        PassStageModel::Project => match r {
            Ok(projection) => on_projected(p.job, s, projection),
            Err(why) => fails(p.job, TransformErrorModel::CkWire(why)),
        },
        _ => p,
    }
}

/// A pass that takes in what is read at every pass.
pub open spec fn takes_signals(p: TransformPassModel, signals: PassSignalsModel) ->
    TransformPassModel {
    match p.stage {
        PassStageModel::Signal(b) => on_signals(p.job, b.value, signals),
        _ => p,
    }
}

/// A pass that takes a selection of reductions in.
pub open spec fn takes_selection(
    p: TransformPassModel,
    reductions: Seq<ReductionDecisionModel>,
) -> TransformPassModel {
    match p.stage {
        PassStageModel::Select(g) => on_selected(p.job, g.value, reductions),
        _ => p,
    }
}

/// A pass that takes its plan in.
pub open spec fn takes_plan(
    p: TransformPassModel,
    plan: PassPlanModel,
    captured: Option<Seq<char>>,
) -> TransformPassModel {
    match p.stage {
        PassStageModel::Plan(c) => on_planned(p.job, c.value, plan, captured),
        _ => p,
    }
}

/// A pass that takes the rendered history in.
pub open spec fn takes_composition(
    p: TransformPassModel,
    s: McStoreModel,
    r: Result<M0CompositionModel, TransformErrorModel>,
) -> TransformPassModel {
    match p.stage {
        PassStageModel::Compose(w) => match r {
            Ok(comp) => on_composed(p.job, s, w.value, comp),
            Err(e) => fails(p.job, e),
        },
        _ => p,
    }
}

/// A pass that takes in the history that was rendered behind a cut.
pub open spec fn takes_recomposition(
    p: TransformPassModel,
    r: Result<M0CompositionModel, TransformErrorModel>,
    m1_digest: u64,
) -> TransformPassModel {
    match p.stage {
        PassStageModel::Recompose(x) => match r {
            Ok(comp) => on_recomposed(p.job, x.value.on, x.value.keep, comp, m1_digest),
            Err(e) => fails(p.job, e),
        },
        _ => p,
    }
}

/// A pass that takes the rendered delta in.
pub open spec fn takes_delta(
    p: TransformPassModel,
    r: Result<M1CompositionModel, TransformErrorModel>,
) -> TransformPassModel {
    match p.stage {
        PassStageModel::ComposeDelta(w) => match r {
            Ok(delta) => on_delta(p.job, w.value, delta),
            Err(e) => fails(p.job, e),
        },
        _ => p,
    }
}

/// A pass that takes in the cache behind a step. `recaptured` is the todo list of the longer
/// tail where the history that was frozen covers less than before.
pub open spec fn takes_step(
    p: TransformPassModel,
    core: CoreStateModel,
    recaptured: Option<Seq<char>>,
) -> TransformPassModel {
    match p.stage {
        PassStageModel::FreezeHistory(x) => on_folded(
            p.job,
            x.value.on,
            x.value.comp,
            core,
            recaptured,
        ),
        PassStageModel::FreezeDelta(x) => on_frozen_delta(
            p.job,
            x.value.on,
            x.value.delta,
            core,
        ),
        PassStageModel::Replay(x) => on_replayed(p.job, x.value.on, core),
        _ => p,
    }
}

/// A pass that takes in what becomes of the todo pair.
pub open spec fn takes_injection(p: TransformPassModel, injection: InjectionOutcomeModel) ->
    TransformPassModel {
    match p.stage {
        PassStageModel::Inject(w) => on_injected(p.job, w.value, injection),
        _ => p,
    }
}

/// A pass that takes the shorter blocks in, and what that leaves of the store.
pub open spec fn takes_rendering(
    p: TransformPassModel,
    s: McStoreModel,
    reduced: Seq<ReducedBlockModel>,
    strips_reasoning: bool,
) -> (TransformPassModel, McStoreModel) {
    match p.stage {
        PassStageModel::Render(x) => on_rendered(
            p.job,
            s,
            x.value.on,
            reduced,
            strips_reasoning,
        ),
        _ => (p, s),
    }
}

/// An answer to a pass.
pub enum PassEventModel {
    Projected(Result<FlatProjectionModel, Seq<char>>),
    Signals(PassSignalsModel),
    Selected(Seq<ReductionDecisionModel>),
    Planned { plan: PassPlanModel, captured: Option<Seq<char>> },
    Composed(Result<M0CompositionModel, TransformErrorModel>),
    Recomposed { comp: Result<M0CompositionModel, TransformErrorModel>, m1_digest: u64 },
    DeltaComposed(Result<M1CompositionModel, TransformErrorModel>),
    Stepped { core: CoreStateModel, recaptured: Option<Seq<char>> },
    Injected(InjectionOutcomeModel),
    Rendered { reduced: Seq<ReducedBlockModel>, strips_reasoning: bool },
}

/// Where an answer leads a pass, and what it leaves of the store.
pub open spec fn next(p: TransformPassModel, s: McStoreModel, event: PassEventModel) -> (
    TransformPassModel,
    McStoreModel,
) {
    match event {
        PassEventModel::Projected(r) => (takes_projection(p, s, r), s),
        PassEventModel::Signals(signals) => (takes_signals(p, signals), s),
        PassEventModel::Selected(reductions) => (takes_selection(p, reductions), s),
        PassEventModel::Planned { plan, captured } => (takes_plan(p, plan, captured), s),
        PassEventModel::Composed(r) => (takes_composition(p, s, r), s),
        PassEventModel::Recomposed { comp, m1_digest } => (
            takes_recomposition(p, comp, m1_digest),
            s,
        ),
        PassEventModel::DeltaComposed(r) => (takes_delta(p, r), s),
        PassEventModel::Stepped { core, recaptured } => (takes_step(p, core, recaptured), s),
        PassEventModel::Injected(injection) => (takes_injection(p, injection), s),
        PassEventModel::Rendered { reduced, strips_reasoning } => takes_rendering(
            p,
            s,
            reduced,
            strips_reasoning,
        ),
    }
}

// --- the machine ----------------------------------------------------------------------

fn again(job: PassJob) -> (r: PassJob)
    requires
        job@.attempt < u32::MAX,
    ensures
        r@ == (PassJobModel { attempt: (job@.attempt + 1) as u32, ..job@ }),
{
    let mut job = job;
    proof {
        job_view(job);
    }
    job.attempt = job.attempt + 1;
    proof {
        job_view(job);
    }
    job
}

fn fail(job: PassJob, e: TransformError) -> (r: TransformPass)
    ensures
        r@ == fails(job@, e@),
{
    proof {
        job_view(job);
    }
    if starts_over(&e, job.attempt) {
        TransformPass { job: again(job), stage: PassStage::Project }
    } else {
        TransformPass { job, stage: PassStage::Failed(e) }
    }
}

fn take_projection(job: PassJob, store: &McStore, projection: FlatProjection) -> (r: TransformPass)
    ensures
        r@ == on_projected(job@, store@, projection@),
{
    proof {
        job_view(job);
    }
    match begin_pass(store, &job.request, &projection, &job.project_path) {
        Ok(start) => {
            let b = Begun { projection, start };
            proof {
                begun_view(b);
            }
            TransformPass { job, stage: PassStage::Signal(Held { value: b }) }
        },
        Err(e) => fail(job, e),
    }
}

fn take_selection(job: PassJob, g: Gated, reductions: Vec<ReductionDecision>) -> (r: TransformPass)
    ensures
        r@ == on_selected(job@, g@, views(reductions@)),
{
    broadcast use group_views;

    proof {
        gated_view(g);
        begun_view(g.begun);
    }
    match classify_pass(&g.begun.start, &g.gate, &reductions, g.signals.m1_digest) {
        Ok(input) => {
            let c = Chosen { gated: g, reductions, input };
            proof {
                chosen_view(c);
            }
            TransformPass { job, stage: PassStage::Plan(Held { value: c }) }
        },
        Err(e) => fail(job, e),
    }
}

fn take_signals(job: PassJob, b: Begun, signals: PassSignals) -> (r: TransformPass)
    ensures
        r@ == on_signals(job@, b@, signals@),
{
    broadcast use group_views;

    proof {
        begun_view(b);
    }
    let gate = open_gate(&b.start, &signals.render_config, &signals.outcome);
    let open: bool = gate.producer_gate;
    proof {
        reveal(<PassGate as View>::view);
    }
    let g = Gated { begun: b, signals, gate };
    proof {
        gated_view(g);
    }
    if open {
        TransformPass { job, stage: PassStage::Select(Held { value: g }) }
    } else {
        let none: Vec<ReductionDecision> = Vec::new();
        assert(views(none@) =~= Seq::empty());
        take_selection(job, g, none)
    }
}

fn take_plan(job: PassJob, c: Chosen, plan: PassPlan, captured: Option<String>) -> (r: TransformPass)
    ensures
        r@ == on_planned(job@, c@, plan@, opt_view(captured)),
{
    proof {
        job_view(job);
        chosen_view(c);
        gated_view(c.gated);
        begun_view(c.gated.begun);
    }
    let work = match begin_work(
        &c.gated.begun.start,
        job.request.usage,
        &c.gated.begun.projection,
        &c.gated.signals.outcome,
        &plan,
        &captured,
        c.gated.signals.m1_digest,
    ) {
        Ok(work) => work,
        Err(e) => {
            return fail(job, e);
        },
    };
    let input = prepare_replay(&c.gated.begun.start);
    let w = Working { chosen: c, plan, work };
    proof {
        working_view(w);
    }
    match &w.plan {
        PassPlan::Soft => TransformPass { job, stage: PassStage::ComposeDelta(Held { value: w }) },
        PassPlan::Defer => {
            let x = ReplayStep { on: w, input };
            proof {
                replay_step_view(x);
            }
            TransformPass { job, stage: PassStage::Replay(Held { value: x }) }
        },
        _ => TransformPass { job, stage: PassStage::Compose(Held { value: w }) },
    }
}

fn freeze(job: PassJob, w: Working, comp: M0Composition) -> (r: TransformPass)
    ensures
        r@ == freezes(job@, w@, comp@),
{
    let mut w = w;
    proof {
        job_view(job);
        working_view(w);
        chosen_view(w.chosen);
        gated_view(w.chosen.gated);
        begun_view(w.chosen.gated.begun);
    }
    let input = prepare_fold(
        &mut w.work,
        &w.chosen.gated.begun.start,
        &comp,
        &w.chosen.reductions,
        &job.placeholder,
    );
    proof {
        working_view(w);
    }
    let x = HistoryStep { on: w, comp, input };
    proof {
        history_step_view(x);
    }
    TransformPass { job, stage: PassStage::FreezeHistory(Held { value: x }) }
}

fn cut(job: PassJob, store: &McStore, w: Working) -> (r: TransformPass)
    ensures
        r@ == cuts(job@, store@, w@),
{
    let mut w = w;
    proof {
        job_view(job);
        working_view(w);
        chosen_view(w.chosen);
        gated_view(w.chosen.gated);
        begun_view(w.chosen.gated.begun);
    }
    match recut(store, &job.request.session_id, &mut w.work, &w.chosen.gated.begun.start) {
        Ok((keep, history)) => {
            proof {
                working_view(w);
            }
            let x = Recut { on: w, keep, history };
            proof {
                recut_view(x);
            }
            TransformPass { job, stage: PassStage::Recompose(Held { value: x }) }
        },
        Err(e) => fail(job, e),
    }
}

fn take_composition(job: PassJob, store: &McStore, w: Working, comp: M0Composition) -> (r:
    TransformPass)
    ensures
        r@ == on_composed(job@, store@, w@, comp@),
{
    proof {
        working_view(w);
        chosen_view(w.chosen);
        gated_view(w.chosen.gated);
        begun_view(w.chosen.gated.begun);
    }
    match check_fold(&comp, &w.chosen.gated.begun.start) {
        Ok(FoldStep::Ready) => freeze(job, w, comp),
        Ok(FoldStep::Recut) => cut(job, store, w),
        Err(e) => fail(job, e),
    }
}

fn take_recomposition(
    job: PassJob,
    x: Recut,
    comp: M0Composition,
    m1_digest: u64,
) -> (r: TransformPass)
    ensures
        r@ == on_recomposed(job@, x@.on, x@.keep, comp@, m1_digest),
{
    proof {
        recut_view(x);
    }
    let Recut { on, keep, history: _ } = x;
    let mut w = on;
    proof {
        working_view(w);
        chosen_view(w.chosen);
        gated_view(w.chosen.gated);
        begun_view(w.chosen.gated.begun);
    }
    match check_refold(&mut w.work, &comp, &w.chosen.gated.begun.start, keep, m1_digest) {
        Ok(_) => {
            proof {
                working_view(w);
            }
            freeze(job, w, comp)
        },
        Err(e) => fail(job, e),
    }
}

fn take_folded(job: PassJob, x: HistoryStep, core: CoreState, recaptured: Option<String>) -> (r:
    TransformPass)
    ensures
        r@ == on_folded(job@, x@.on, x@.comp, core@, opt_view(recaptured)),
{
    proof {
        history_step_view(x);
        job_view(job);
    }
    let HistoryStep { on, comp, input: _ } = x;
    let mut w = on;
    proof {
        working_view(w);
        chosen_view(w.chosen);
        gated_view(w.chosen.gated);
        begun_view(w.chosen.gated.begun);
    }
    finish_fold(
        &mut w.work,
        &w.chosen.gated.begun.start,
        core,
        &comp,
        &w.chosen.gated.signals.render_config,
        job.now_ms,
        &recaptured,
    );
    proof {
        working_view(w);
    }
    TransformPass { job, stage: PassStage::Inject(Held { value: w }) }
}

fn take_delta(job: PassJob, w: Working, delta: M1Composition) -> (r: TransformPass)
    ensures
        r@ == on_delta(job@, w@, delta@),
{
    proof {
        working_view(w);
        chosen_view(w.chosen);
        gated_view(w.chosen.gated);
        begun_view(w.chosen.gated.begun);
    }
    match prepare_delta(&w.work, &w.chosen.gated.begun.start, &delta, &w.chosen.reductions) {
        Ok(input) => {
            let x = DeltaStep { on: w, delta, input };
            proof {
                delta_step_view(x);
            }
            TransformPass { job, stage: PassStage::FreezeDelta(Held { value: x }) }
        },
        Err(e) => fail(job, e),
    }
}

fn take_frozen_delta(job: PassJob, x: DeltaStep, core: CoreState) -> (r: TransformPass)
    ensures
        r@ == on_frozen_delta(job@, x@.on, x@.delta, core@),
{
    proof {
        delta_step_view(x);
    }
    let DeltaStep { on, delta, input: _ } = x;
    let mut w = on;
    proof {
        working_view(w);
        chosen_view(w.chosen);
        gated_view(w.chosen.gated);
        begun_view(w.chosen.gated.begun);
    }
    finish_delta(&mut w.work, &w.chosen.gated.begun.start, core, &delta);
    proof {
        working_view(w);
    }
    TransformPass { job, stage: PassStage::Inject(Held { value: w }) }
}

fn take_replayed(job: PassJob, x: ReplayStep, core: CoreState) -> (r: TransformPass)
    ensures
        r@ == on_replayed(job@, x@.on, core@),
{
    proof {
        replay_step_view(x);
    }
    let ReplayStep { on, input: _ } = x;
    let mut w = on;
    proof {
        working_view(w);
    }
    finish_replay(&mut w.work, core);
    proof {
        working_view(w);
    }
    TransformPass { job, stage: PassStage::Inject(Held { value: w }) }
}

fn take_injection(job: PassJob, w: Working, injection: InjectionOutcome) -> (r: TransformPass)
    ensures
        r@ == on_injected(job@, w@, injection@),
{
    let mut w = w;
    proof {
        job_view(job);
        working_view(w);
        chosen_view(w.chosen);
        gated_view(w.chosen.gated);
        begun_view(w.chosen.gated.begun);
    }
    match settle(
        &mut w.work,
        &w.chosen.gated.begun.start,
        &w.chosen.gated.gate,
        w.chosen.gated.signals.outcome.pass,
        &w.plan,
        w.chosen.input.reductions_pending,
        &injection,
        &job.request,
    ) {
        Ok(_) => {
            proof {
                working_view(w);
            }
            let wanted = work_reductions(&w.work, &w.chosen.gated.begun.projection);
            let x = Rendering { on: w, wanted };
            proof {
                rendering_view(x);
            }
            TransformPass { job, stage: PassStage::Render(Held { value: x }) }
        },
        Err(e) => fail(job, e),
    }
}

fn work_reductions(work: &PassWork, projection: &FlatProjection) -> (r: Vec<ReductionRequest>)
    ensures
        views(r@) == reductions_to_render(work@.core, projection@.blocks),
{
    proof {
        reveal(<PassWork as View>::view);
    }
    wanted_reductions(&work.core, projection)
}

fn work_output(
    work: &PassWork,
    projection: &FlatProjection,
    request: &TransformRequest,
    reduced: &Vec<ReducedBlock>,
    strips_reasoning: bool,
) -> (r: Result<Vec<CkWireMessage>, TransformError>)
    ensures
        match (r, output_of(
            work@.core,
            work@.meta,
            request@.messages,
            projection@.blocks,
            views(reduced@),
            strips_reasoning,
        )) {
            (Ok(out), Ok(wanted)) => views(out@) == wanted,
            (Err(e), Err(fault)) => e@ == fault,
            _ => false,
        },
{
    proof {
        reveal(<PassWork as View>::view);
    }
    build_output(&work.core, &work.meta, projection, &request.messages, reduced, strips_reasoning)
}

fn take_rendering(
    job: PassJob,
    store: &mut McStore,
    x: Rendering,
    reduced: Vec<ReducedBlock>,
    strips_reasoning: bool,
) -> (r: TransformPass)
    ensures
        (r@, final(store)@) == on_rendered(
            job@,
            old(store)@,
            x@.on,
            views(reduced@),
            strips_reasoning,
        ),
        well_formed(old(store)@) ==> well_formed(final(store)@),
        commands_kept(old(store)@, final(store)@),
{
    proof {
        rendering_view(x);
        job_view(job);
    }
    let Rendering { on, wanted: _ } = x;
    let w = on;
    proof {
        working_view(w);
        chosen_view(w.chosen);
        gated_view(w.chosen.gated);
        begun_view(w.chosen.gated.begun);
    }
    let messages = match work_output(
        &w.work,
        &w.chosen.gated.begun.projection,
        &job.request,
        &reduced,
        strips_reasoning,
    ) {
        Ok(messages) => messages,
        Err(e) => {
            return fail(job, e);
        },
    };
    match finish_pass(
        store,
        &job.request,
        &w.chosen.gated.begun.start,
        &w.chosen.gated.gate,
        &w.plan,
        &w.work,
        messages,
        job.now_ms,
    ) {
        Ok(response) => {
            let scheduler_pass = w.chosen.gated.signals.outcome.pass;
            let done = TransformWithProjection {
                response,
                projection: w.chosen.gated.begun.projection,
                scheduler_pass,
            };
            proof {
                result_parts(done);
            }
            TransformPass { job, stage: PassStage::Served(Held { value: done }) }
        },
        Err(e) => fail(job, e),
    }
}

/// Begins a transform pass.
pub fn transform_with_projection(
    request: TransformRequest,
    project_path: String,
    placeholder: String,
    now_ms: i64,
) -> (r: TransformPass)
    ensures
        r@ == at(
            PassJobModel {
                request: request@,
                project_path: project_path@,
                placeholder: placeholder@,
                now_ms,
                attempt: 0,
            },
            PassStageModel::Project,
        ),
{
    let job = PassJob { request, project_path, placeholder, now_ms, attempt: 0 };
    proof {
        job_view(job);
    }
    TransformPass { job, stage: PassStage::Project }
}

impl TransformPass {
    /// Takes the flattened conversation in.
    pub fn projected(self, store: &McStore, projection: Result<FlatProjection, String>) -> (r: Self)
        ensures
            r@ == takes_projection(self@, store@, result_view(projection)),
    {
        let TransformPass { job, stage } = self;
        match stage {
            PassStage::Project => match projection {
                Ok(projection) => take_projection(job, store, projection),
                Err(why) => fail(job, TransformError::CkWire(why)),
            },
            stage => TransformPass { job, stage },
        }
    }

    /// Takes in what is read at every pass.
    pub fn signalled(self, signals: PassSignals) -> (r: Self)
        ensures
            r@ == takes_signals(self@, signals@),
    {
        let TransformPass { job, stage } = self;
        match stage {
            PassStage::Signal(b) => take_signals(job, b.value, signals),
            stage => TransformPass { job, stage },
        }
    }

    /// Takes a selection of reductions in.
    pub fn selected(self, reductions: Vec<ReductionDecision>) -> (r: Self)
        ensures
            r@ == takes_selection(self@, views(reductions@)),
    {
        let TransformPass { job, stage } = self;
        match stage {
            PassStage::Select(g) => take_selection(job, g.value, reductions),
            stage => TransformPass { job, stage },
        }
    }

    /// Takes the plan in, with the todo list that the tail ends with.
    pub fn planned(self, plan: PassPlan, captured: Option<String>) -> (r: Self)
        ensures
            r@ == takes_plan(self@, plan@, opt_view(captured)),
    {
        let TransformPass { job, stage } = self;
        match stage {
            PassStage::Plan(c) => take_plan(job, c.value, plan, captured),
            stage => TransformPass { job, stage },
        }
    }

    /// Takes the rendered history in. Where the conversation lost its end, the history is to
    /// be cut back, and is asked for anew from what the cut leaves.
    pub fn composed(self, store: &McStore, comp: Result<M0Composition, TransformError>) -> (r: Self)
        ensures
            r@ == takes_composition(self@, store@, result_view(comp)),
    {
        let TransformPass { job, stage } = self;
        match stage {
            PassStage::Compose(w) => match comp {
                Ok(comp) => take_composition(job, store, w.value, comp),
                Err(e) => fail(job, e),
            },
            stage => TransformPass { job, stage },
        }
    }

    /// Takes in the history that was rendered behind a cut.
    pub fn recomposed(self, comp: Result<M0Composition, TransformError>, m1_digest: u64) -> (r: Self)
        ensures
            r@ == takes_recomposition(self@, result_view(comp), m1_digest),
    {
        let TransformPass { job, stage } = self;
        match stage {
            PassStage::Recompose(x) => match comp {
                Ok(comp) => take_recomposition(job, x.value, comp, m1_digest),
                Err(e) => fail(job, e),
            },
            stage => TransformPass { job, stage },
        }
    }

    /// Takes the rendered delta in.
    pub fn delta_composed(self, delta: Result<M1Composition, TransformError>) -> (r: Self)
        ensures
            r@ == takes_delta(self@, result_view(delta)),
    {
        let TransformPass { job, stage } = self;
        match stage {
            PassStage::ComposeDelta(w) => match delta {
                Ok(delta) => take_delta(job, w.value, delta),
                Err(e) => fail(job, e),
            },
            stage => TransformPass { job, stage },
        }
    }

    /// Takes in the cache behind a step.
    pub fn stepped(self, core: CoreState, recaptured: Option<String>) -> (r: Self)
        ensures
            r@ == takes_step(self@, core@, opt_view(recaptured)),
    {
        let TransformPass { job, stage } = self;
        match stage {
            PassStage::FreezeHistory(x) => take_folded(job, x.value, core, recaptured),
            PassStage::FreezeDelta(x) => take_frozen_delta(job, x.value, core),
            PassStage::Replay(x) => take_replayed(job, x.value, core),
            stage => TransformPass { job, stage },
        }
    }

    /// Takes in what becomes of the todo pair.
    pub fn injected(self, injection: InjectionOutcome) -> (r: Self)
        ensures
            r@ == takes_injection(self@, injection@),
    {
        let TransformPass { job, stage } = self;
        match stage {
            PassStage::Inject(w) => take_injection(job, w.value, injection),
            stage => TransformPass { job, stage },
        }
    }

    /// Takes the shorter blocks in, assembles the output and commits what changed. Of all
    /// that a pass takes in, this alone can write, and it writes only where the pass is
    /// served.
    pub fn rendered(self, store: &mut McStore, reduced: Vec<ReducedBlock>, strips_reasoning: bool) ->
        (r: Self)
        ensures
            (r@, final(store)@) == takes_rendering(
                self@,
                old(store)@,
                views(reduced@),
                strips_reasoning,
            ),
            well_formed(old(store)@) ==> well_formed(final(store)@),
            commands_kept(old(store)@, final(store)@),
    {
        let TransformPass { job, stage } = self;
        match stage {
            PassStage::Render(x) => take_rendering(job, store, x.value, reduced, strips_reasoning),
            stage => TransformPass { job, stage },
        }
    }
}

} // verus!
