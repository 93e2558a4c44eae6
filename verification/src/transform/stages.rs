//! What every stage of a run of a pass keeps.

use vstd::prelude::*;

use crate::meta::{CoreStateModel, ModuleMetaModel};
use crate::rows::{find_where, row_of};
use crate::store::cache::loaded;
use crate::store::records::{LoadedStateModel, TruncateOutcomeModel};
use crate::store::revert::truncation;
use crate::store::McStoreModel;
use crate::transform::errors::TransformErrorModel;
use crate::transform::ingress::{drifted, ingress_fault};
use crate::transform::intake::{absorbed, absorbed_stays, same_intake, work_absorbs};
use crate::transform::laws::{an_unawaited_answer_changes_nothing, waits_for};
use crate::transform::machine::{
    at, cuts, fails, freezes, held, next, on_composed, on_delta, on_folded, on_frozen_delta,
    on_injected, on_planned, on_projected, on_recomposed, on_rendered, on_replayed, on_selected,
    on_signals, settled, takes_composition, takes_delta, takes_injection, takes_plan,
    takes_projection, takes_recomposition, takes_rendering, takes_selection, takes_step, BegunModel,
    ChosenModel, GatedModel, PassEventModel, PassJobModel, PassSignalsModel, PassStageModel,
    RecutModel, RenderingModel, ReplayStepModel, TransformPassModel, WorkingModel,
};
use crate::transform::output::reductions_to_render;
use crate::transform::pass::{
    advance_absent_text, busts, classified, config_changed, cut_target, delta_done, fold_step,
    folded, gated, recut_absent_text, recut_work, refolded, start_fault, started, waiting_cut,
    watermarked, work_begun, FoldStep, PassGateModel, PassStartModel, PassWorkModel,
};
use crate::transform::todo::{todo_advanced, InjectionOutcomeModel};
use crate::transform::types::{
    CkIngressMessageModel, FlatProjectionModel, M0CompositionModel, M1CompositionModel,
    PassDecision, PassPlanModel, ReducedBlockModel, ReductionDecisionModel, StepAction,
    StepInputModel,
};

verus! {

// --- what every stage of a run keeps ----------------------------------------------------

/// Whether the stored state of a session is what the pass began with.
#[verifier::opaque]
pub open spec fn unmoved(job: PassJobModel, s: McStoreModel, start: PassStartModel) -> bool {
    loaded(s, job.request.session_id) == (LoadedStateModel {
        core: start.core,
        meta: start.meta,
        row_version: start.row_version,
    })
}

/// Whether a pass began with a conversation without a fault.
#[verifier::opaque]
pub open spec fn faultless(job: PassJobModel, b: BegunModel) -> bool {
    &&& ingress_fault(job.request.messages, b.projection.blocks) is None
    &&& find_where(
        b.projection.identity_by_mid,
        drifted(b.start.meta.block_identity_by_mid),
    ) is None
}

/// Whether what decides the plan is what the pass began with.
#[verifier::opaque]
pub open spec fn weighed(c: ChosenModel) -> bool {
    let start = c.gated.begun.start;
    &&& c.input.initialized == start.meta.initialized
    &&& c.input.render_config_changed == config_changed(
        start.meta,
        c.gated.signals.render_config,
    )
}

/// Whether a pass has kept what it took in.
pub open spec fn taken_in(job: PassJobModel, w: WorkingModel) -> bool {
    &&& faultless(job, w.chosen.gated.begun)
    &&& weighed(w.chosen)
    &&& absorbed(w.work.meta, job.request.usage, w.projection(), w.signals().outcome)
}

/// Whether a plan renders the history anew.
pub open spec fn folds(plan: PassPlanModel) -> bool {
    plan is Hard || plan is MigrateHard
}

/// Whether a record says under which configuration the history was rendered, and up to which
/// revision the delta was.
#[verifier::opaque]
pub open spec fn configured(w: WorkingModel) -> bool {
    let meta = w.work.meta;
    let before = w.start().meta;
    &&& if folds(w.plan) {
        meta.initialized && meta.last_render_config == w.signals().render_config
    } else {
        meta.initialized == before.initialized && meta.last_render_config
            == before.last_render_config
    }
    &&& busts(w.plan) ==> meta.m1_revision == w.work.m1_digest
}

/// Whether a pass that follows a plan other than to render the history anew left the
/// configuration alone.
#[verifier::opaque]
pub open spec fn unconfigured(w: WorkingModel) -> bool {
    &&& w.work.meta.initialized == w.start().meta.initialized
    &&& w.work.meta.last_render_config == w.start().meta.last_render_config
}

/// What every stage of a run keeps.
#[verifier::opaque]
pub open spec fn sound(p: TransformPassModel, s: McStoreModel) -> bool {
    match p.stage {
        PassStageModel::Project => true,
        PassStageModel::Signal(b) => faultless(p.job, b.value) && unmoved(p.job, s, b.value.start),
        PassStageModel::Select(g) => faultless(p.job, g.value.begun) && unmoved(
            p.job,
            s,
            g.value.begun.start,
        ) && g.value.gate == gated(
            g.value.begun.start,
            g.value.signals.render_config,
            g.value.signals.outcome,
        ),
        PassStageModel::Plan(c) => faultless(p.job, c.value.gated.begun) && weighed(c.value)
            && unmoved(p.job, s, c.value.gated.begun.start),
        PassStageModel::Compose(w) => taken_in(p.job, w.value) && folds(w.value.plan) && unmoved(
            p.job,
            s,
            w.value.start(),
        ),
        PassStageModel::Recompose(x) => taken_in(p.job, x.value.on) && folds(x.value.on.plan)
            && unmoved(p.job, s, x.value.on.start()),
        PassStageModel::FreezeHistory(x) => taken_in(p.job, x.value.on) && folds(x.value.on.plan)
            && unmoved(p.job, s, x.value.on.start()),
        PassStageModel::ComposeDelta(w) => taken_in(p.job, w.value) && w.value.plan is Soft
            && unconfigured(w.value) && unmoved(p.job, s, w.value.start()),
        PassStageModel::FreezeDelta(x) => taken_in(p.job, x.value.on) && x.value.on.plan is Soft
            && unconfigured(x.value.on) && unmoved(p.job, s, x.value.on.start()),
        PassStageModel::Replay(x) => taken_in(p.job, x.value.on) && x.value.on.plan is Defer
            && unconfigured(x.value.on) && unmoved(p.job, s, x.value.on.start()),
        PassStageModel::Inject(w) => taken_in(p.job, w.value) && configured(w.value) && unmoved(
            p.job,
            s,
            w.value.start(),
        ),
        PassStageModel::Render(x) => taken_in(p.job, x.value.on) && configured(x.value.on)
            && unmoved(p.job, s, x.value.on.start()),
        PassStageModel::Served(_) => true,
        PassStageModel::Failed(_) => true,
    }
}

pub(crate) proof fn a_stop_is_sound(p: TransformPassModel, s: McStoreModel)
    requires
        p.stage is Project || p.stage is Served || p.stage is Failed,
    ensures
        sound(p, s),
{
    reveal(sound);
}

proof fn a_beginning_is_sound(job: PassJobModel, s: McStoreModel, b: BegunModel)
    requires
        faultless(job, b),
        unmoved(job, s, b.start),
    ensures
        sound(at(job, PassStageModel::Signal(held(b))), s),
{
    reveal(sound);
}

proof fn a_composing_stage_is_sound(job: PassJobModel, s: McStoreModel, w: WorkingModel)
    requires
        taken_in(job, w),
        unmoved(job, s, w.start()),
    ensures
        folds(w.plan) ==> sound(at(job, PassStageModel::Compose(held(w))), s),
        w.plan is Soft && unconfigured(w) ==> sound(
            at(job, PassStageModel::ComposeDelta(held(w))),
            s,
        ),
{
    reveal(sound);
}

proof fn a_replay_stage_is_sound(job: PassJobModel, s: McStoreModel, x: ReplayStepModel)
    requires
        taken_in(job, x.on),
        x.on.plan is Defer,
        unconfigured(x.on),
        unmoved(job, s, x.on.start()),
    ensures
        sound(at(job, PassStageModel::Replay(held(x))), s),
{
    reveal(sound);
}

proof fn a_choice_is_sound(job: PassJobModel, s: McStoreModel, c: ChosenModel)
    requires
        faultless(job, c.gated.begun),
        weighed(c),
        unmoved(job, s, c.gated.begun.start),
    ensures
        sound(at(job, PassStageModel::Plan(held(c))), s),
{
    reveal(sound);
}

proof fn a_recut_is_sound(job: PassJobModel, s: McStoreModel, x: RecutModel)
    requires
        taken_in(job, x.on),
        folds(x.on.plan),
        unmoved(job, s, x.on.start()),
    ensures
        sound(at(job, PassStageModel::Recompose(held(x))), s),
{
    reveal(sound);
}

proof fn a_todo_stage_is_sound(job: PassJobModel, s: McStoreModel, w: WorkingModel)
    requires
        taken_in(job, w),
        configured(w),
        unmoved(job, s, w.start()),
    ensures
        sound(at(job, PassStageModel::Inject(held(w))), s),
{
    reveal(sound);
}

proof fn a_render_stage_is_sound(job: PassJobModel, s: McStoreModel, x: RenderingModel)
    requires
        taken_in(job, x.on),
        configured(x.on),
        unmoved(job, s, x.on.start()),
    ensures
        sound(at(job, PassStageModel::Render(held(x))), s),
{
    reveal(sound);
}

proof fn a_failure_is_sound(job: PassJobModel, s: McStoreModel, e: TransformErrorModel)
    ensures
        sound(fails(job, e), s),
{
    a_stop_is_sound(fails(job, e), s);
}

proof fn a_start_is_loaded(job: PassJobModel, s: McStoreModel, projection: FlatProjectionModel)
    ensures
        ({
            let start = started(s, job.request, projection, job.project_path);
            let now = loaded(s, job.request.session_id);
            start.core == now.core && start.meta == now.meta && start.row_version
                == now.row_version
        }),
{
    reveal(started);
}

proof fn a_projection_is_sound(
    job: PassJobModel,
    s: McStoreModel,
    projection: FlatProjectionModel,
)
    ensures
        sound(on_projected(job, s, projection), s),
{
    match start_fault(s, job.request, projection) {
        Some(e) => {
            a_failure_is_sound(job, s, e);
        },
        None => {
            let start = started(s, job.request, projection, job.project_path);
            let b = BegunModel { projection, start };
            a_start_is_loaded(job, s, projection);
            assert(faultless(job, b)) by {
                reveal(faultless);
            }
            assert(unmoved(job, s, start)) by {
                reveal(unmoved);
            }
            a_beginning_is_sound(job, s, b);
        },
    }
}

proof fn a_choice_is_weighed(g: GatedModel, reductions: Seq<ReductionDecisionModel>)
    requires
        g.gate == gated(g.begun.start, g.signals.render_config, g.signals.outcome),
    ensures
        weighed(
            ChosenModel {
                gated: g,
                reductions,
                input: classified(g.begun.start, g.gate, reductions, g.signals.m1_digest),
            },
        ),
{
    reveal(weighed);
    assert(g.gate.render_config_changed == config_changed(
        g.begun.start.meta,
        g.signals.render_config,
    )) by {
        reveal(gated);
    }
    reveal(classified);
}

proof fn a_selection_is_sound(
    job: PassJobModel,
    s: McStoreModel,
    g: GatedModel,
    reductions: Seq<ReductionDecisionModel>,
)
    requires
        faultless(job, g.begun),
        unmoved(job, s, g.begun.start),
        g.gate == gated(g.begun.start, g.signals.render_config, g.signals.outcome),
    ensures
        sound(on_selected(job, g, reductions), s),
{
    let c = ChosenModel {
        gated: g,
        reductions,
        input: classified(g.begun.start, g.gate, reductions, g.signals.m1_digest),
    };
    a_failure_is_sound(job, s, TransformErrorModel::ReductionConflict);
    assert(weighed(c)) by {
        a_choice_is_weighed(g, reductions);
    }
    a_choice_is_sound(job, s, c);
}

proof fn a_plan_is_sound(
    job: PassJobModel,
    s: McStoreModel,
    c: ChosenModel,
    plan: PassPlanModel,
    captured: Option<Seq<char>>,
)
    requires
        faultless(job, c.gated.begun),
        weighed(c),
        unmoved(job, s, c.gated.begun.start),
    ensures
        sound(on_planned(job, c, plan, captured), s),
{
    let begun = c.gated.begun;
    let signals = c.gated.signals;
    let work = work_begun(
        begun.start,
        job.request.usage,
        begun.projection,
        signals.outcome,
        plan,
        captured,
        signals.m1_digest,
    );
    let w = WorkingModel { chosen: c, plan, work };
    assert(find_where(
        begun.projection.identity_by_mid,
        drifted(begun.start.meta.block_identity_by_mid),
    ) is None) by {
        reveal(faultless);
    }
    work_absorbs(
        begun.start,
        job.request.usage,
        begun.projection,
        signals.outcome,
        plan,
        captured,
        signals.m1_digest,
    );
    assert(unconfigured(w)) by {
        reveal(unconfigured);
    }
    match plan {
        PassPlanModel::Reject(why) => {
            a_failure_is_sound(job, s, TransformErrorModel::UnknownShape(why));
        },
        PassPlanModel::Hard | PassPlanModel::MigrateHard | PassPlanModel::Soft => {
            a_composing_stage_is_sound(job, s, w);
        },
        PassPlanModel::Defer => {
            a_replay_stage_is_sound(
                job,
                s,
                ReplayStepModel {
                    on: w,
                    input: StepInputModel {
                        proposed: StepAction::SoftPlus,
                        boundary_present: begun.start.boundary_token,
                        rendered_units: Seq::empty(),
                        new_boundary_id: None,
                    },
                },
            );
        },
    }
}

proof fn a_freezing_is_sound(
    job: PassJobModel,
    s: McStoreModel,
    w: WorkingModel,
    comp: M0CompositionModel,
)
    requires
        taken_in(job, w),
        folds(w.plan),
        unmoved(job, s, w.start()),
    ensures
        sound(freezes(job, w, comp), s),
{
    reveal(sound);
}

proof fn a_recut_keeps_the_intake(
    work: PassWorkModel,
    outcome: TruncateOutcomeModel,
    cut: Option<i64>,
)
    ensures
        same_intake(work.meta, recut_work(work, outcome, cut).meta),
{
    reveal(recut_work);
    reveal(same_intake);
}

proof fn a_refold_keeps_the_intake(work: PassWorkModel, comp: M0CompositionModel, m1_digest: u64)
    ensures
        same_intake(work.meta, refolded(work, comp, m1_digest).meta),
{
    reveal(refolded);
    reveal(same_intake);
}

proof fn a_cut_goes_on(job: PassJobModel, s: McStoreModel, w: WorkingModel)
    ensures
        ({
            let q = cuts(job, s, w);
            if q.stage is Recompose {
                let x = q.stage->Recompose_0.value;
                &&& q == at(job, PassStageModel::Recompose(held(x)))
                &&& x.on.chosen == w.chosen
                &&& x.on.plan == w.plan
                &&& same_intake(w.work.meta, x.on.work.meta)
            } else {
                q.stage is Project || q.stage is Failed
            }
        }),
{
    let session = job.request.session_id;
    let keep = cut_target(s, session, w.start().live);
    let outcome = truncation(s, session, keep, row_of(s.cache, session)->0).1;
    a_recut_keeps_the_intake(w.work, outcome, waiting_cut(s, session, keep));
}

proof fn a_cut_is_sound(job: PassJobModel, s: McStoreModel, w: WorkingModel)
    requires
        taken_in(job, w),
        folds(w.plan),
        unmoved(job, s, w.start()),
    ensures
        sound(cuts(job, s, w), s),
{
    let q = cuts(job, s, w);
    a_cut_goes_on(job, s, w);
    if q.stage is Recompose {
        let x = q.stage->Recompose_0.value;
        absorbed_stays(
            w.work.meta,
            x.on.work.meta,
            job.request.usage,
            w.projection(),
            w.signals().outcome,
        );
        a_recut_is_sound(job, s, x);
    } else {
        a_stop_is_sound(q, s);
    }
}

proof fn a_composition_is_sound(
    job: PassJobModel,
    s: McStoreModel,
    w: WorkingModel,
    comp: M0CompositionModel,
)
    requires
        taken_in(job, w),
        folds(w.plan),
        unmoved(job, s, w.start()),
    ensures
        sound(on_composed(job, s, w, comp), s),
{
    match fold_step(comp, w.start().live, w.start().core.reconcile_pending) {
        Err(e) => {
            a_failure_is_sound(job, s, e);
        },
        Ok(FoldStep::Ready) => {
                    a_freezing_is_sound(job, s, w, comp);
        },
        Ok(FoldStep::Recut) => {
            a_cut_is_sound(job, s, w);
        },
    }
}

proof fn a_delta_is_sound(
    job: PassJobModel,
    s: McStoreModel,
    w: WorkingModel,
    delta: M1CompositionModel,
)
    requires
        taken_in(job, w),
        w.plan is Soft,
        unconfigured(w),
        unmoved(job, s, w.start()),
    ensures
        sound(on_delta(job, w, delta), s),
{
    reveal(sound);
    a_failure_is_sound(
        job,
        s,
        TransformErrorModel::BoundaryNotPresent(
            advance_absent_text(delta.new_coverage->0.boundary_id),
        ),
    );
}

proof fn a_recomposition_is_sound(
    job: PassJobModel,
    s: McStoreModel,
    w: WorkingModel,
    keep: i64,
    comp: M0CompositionModel,
    m1_digest: u64,
)
    requires
        taken_in(job, w),
        folds(w.plan),
        unmoved(job, s, w.start()),
    ensures
        sound(on_recomposed(job, w, keep, comp, m1_digest), s),
{
    a_failure_is_sound(
        job,
        s,
        TransformErrorModel::BoundaryNotPresent(recut_absent_text(keep, comp.boundary_id)),
    );
    let work = refolded(w.work, comp, m1_digest);
    a_refold_keeps_the_intake(w.work, comp, m1_digest);
    absorbed_stays(
        w.work.meta,
        work.meta,
        job.request.usage,
        w.projection(),
        w.signals().outcome,
    );
    a_freezing_is_sound(job, s, w.with_work(work), comp);
}

proof fn a_fold_keeps_the_record(
    w: WorkingModel,
    comp: M0CompositionModel,
    core: CoreStateModel,
    now_ms: i64,
    recaptured: Option<Seq<char>>,
)
    requires
        folds(w.plan),
    ensures
        ({
            let work = folded(
                w.work,
                w.start(),
                core,
                comp,
                w.signals().render_config,
                now_ms,
                recaptured,
            );
            &&& same_intake(w.work.meta, work.meta)
            &&& configured(w.with_work(work))
        }),
{
    let work = folded(
        w.work,
        w.start(),
        core,
        comp,
        w.signals().render_config,
        now_ms,
        recaptured,
    );
    assert({
        &&& same_intake(w.work.meta, work.meta)
        &&& work.meta.initialized
        &&& work.meta.last_render_config == w.signals().render_config
        &&& work.meta.m1_revision == work.m1_digest
    }) by {
        reveal(folded);
        reveal(same_intake);
    }
    reveal(configured);
}

proof fn a_fold_is_sound(
    job: PassJobModel,
    s: McStoreModel,
    w: WorkingModel,
    comp: M0CompositionModel,
    core: CoreStateModel,
    recaptured: Option<Seq<char>>,
)
    requires
        taken_in(job, w),
        folds(w.plan),
        unmoved(job, s, w.start()),
    ensures
        sound(on_folded(job, w, comp, core, recaptured), s),
{
    let work = folded(
        w.work,
        w.start(),
        core,
        comp,
        w.signals().render_config,
        job.now_ms,
        recaptured,
    );
    a_fold_keeps_the_record(w, comp, core, job.now_ms, recaptured);
    absorbed_stays(
        w.work.meta,
        work.meta,
        job.request.usage,
        w.projection(),
        w.signals().outcome,
    );
    a_todo_stage_is_sound(job, s, w.with_work(work));
}

proof fn a_delta_keeps_the_record(w: WorkingModel, core: CoreStateModel, delta: M1CompositionModel)
    requires
        w.plan is Soft,
        unconfigured(w),
    ensures
        ({
            let work = delta_done(w.work, w.start(), core, delta);
            &&& same_intake(w.work.meta, work.meta)
            &&& configured(w.with_work(work))
        }),
{
    let work = delta_done(w.work, w.start(), core, delta);
    assert({
        &&& same_intake(w.work.meta, work.meta)
        &&& work.meta.initialized == w.work.meta.initialized
        &&& work.meta.last_render_config == w.work.meta.last_render_config
        &&& work.meta.m1_revision == work.m1_digest
    }) by {
        reveal(delta_done);
        reveal(same_intake);
    }
    reveal(configured);
    reveal(unconfigured);
}

proof fn a_frozen_delta_is_sound(
    job: PassJobModel,
    s: McStoreModel,
    w: WorkingModel,
    delta: M1CompositionModel,
    core: CoreStateModel,
)
    requires
        taken_in(job, w),
        w.plan is Soft,
        unconfigured(w),
        unmoved(job, s, w.start()),
    ensures
        sound(on_frozen_delta(job, w, delta, core), s),
{
    let work = delta_done(w.work, w.start(), core, delta);
    a_delta_keeps_the_record(w, core, delta);
    absorbed_stays(
        w.work.meta,
        work.meta,
        job.request.usage,
        w.projection(),
        w.signals().outcome,
    );
    a_todo_stage_is_sound(job, s, w.with_work(work));
}

proof fn a_replay_is_sound(
    job: PassJobModel,
    s: McStoreModel,
    w: WorkingModel,
    core: CoreStateModel,
)
    requires
        taken_in(job, w),
        w.plan is Defer,
        unconfigured(w),
        unmoved(job, s, w.start()),
    ensures
        sound(on_replayed(job, w, core), s),
{
    let next_work = w.with_work(PassWorkModel { core, ..w.work });
    assert(configured(next_work)) by {
        reveal(configured);
        reveal(unconfigured);
    }
    a_todo_stage_is_sound(job, s, next_work);
}

proof fn marking_keeps_the_record(
    meta: ModuleMetaModel,
    start: PassStartModel,
    gate: PassGateModel,
    pass: PassDecision,
    bust: bool,
    pending: bool,
)
    ensures
        ({
            let marked = watermarked(meta, start, gate, pass, bust, pending);
            &&& same_intake(meta, marked)
            &&& marked.initialized == meta.initialized
            &&& marked.last_render_config == meta.last_render_config
            &&& marked.m1_revision == meta.m1_revision
        }),
{
    reveal(watermarked);
    reveal(same_intake);
}

proof fn a_todo_keeps_the_record(
    meta: ModuleMetaModel,
    outcome: InjectionOutcomeModel,
    bust: bool,
    old_coverage: Option<u64>,
    shrunk: bool,
    messages: Seq<CkIngressMessageModel>,
)
    ensures
        todo_advanced(meta, outcome, bust, old_coverage, shrunk, messages) matches Ok(after) ==> {
            &&& same_intake(meta, after)
            &&& after.initialized == meta.initialized
            &&& after.last_render_config == meta.last_render_config
            &&& after.m1_revision == meta.m1_revision
        },
{
    reveal(same_intake);
}

pub(crate) proof fn settling_keeps_the_record(
    job: PassJobModel,
    w: WorkingModel,
    injection: InjectionOutcomeModel,
)
    ensures
        settled(job, w, injection) matches Ok(meta) ==> {
            &&& same_intake(w.work.meta, meta)
            &&& meta.initialized == w.work.meta.initialized
            &&& meta.last_render_config == w.work.meta.last_render_config
            &&& meta.m1_revision == w.work.meta.m1_revision
        },
{
    let marked = watermarked(
        w.work.meta,
        w.start(),
        w.gate(),
        w.signals().outcome.pass,
        busts(w.plan),
        w.chosen.input.reductions_pending,
    );
    marking_keeps_the_record(
        w.work.meta,
        w.start(),
        w.gate(),
        w.signals().outcome.pass,
        busts(w.plan),
        w.chosen.input.reductions_pending,
    );
    a_todo_keeps_the_record(
        marked,
        injection,
        busts(w.plan),
        w.start().meta.coverage_ordinal,
        w.work.coverage_shrunk,
        job.request.messages,
    );
    reveal(same_intake);
}

proof fn an_injection_is_sound(
    job: PassJobModel,
    s: McStoreModel,
    w: WorkingModel,
    injection: InjectionOutcomeModel,
)
    requires
        taken_in(job, w),
        configured(w),
        unmoved(job, s, w.start()),
    ensures
        sound(on_injected(job, w, injection), s),
{
    match settled(job, w, injection) {
        Err(e) => {
            a_failure_is_sound(job, s, e);
        },
        Ok(meta) => {
            settling_keeps_the_record(job, w, injection);
            absorbed_stays(
                w.work.meta,
                meta,
                job.request.usage,
                w.projection(),
                w.signals().outcome,
            );
            let on = w.with_work(PassWorkModel { meta, ..w.work });
            assert(configured(on)) by {
                reveal(configured);
            }
            a_render_stage_is_sound(
                job,
                s,
                RenderingModel {
                    on,
                    wanted: reductions_to_render(w.work.core, w.projection().blocks),
                },
            );
        },
    }
}

proof fn an_end_is_sound(
    job: PassJobModel,
    s: McStoreModel,
    w: WorkingModel,
    reduced: Seq<ReducedBlockModel>,
    strips_reasoning: bool,
)
    ensures
        sound(
            on_rendered(job, s, w, reduced, strips_reasoning).0,
            on_rendered(job, s, w, reduced, strips_reasoning).1,
        ),
{
    let (q, t) = on_rendered(job, s, w, reduced, strips_reasoning);
    assert(q.stage is Project || q.stage is Served || q.stage is Failed);
    a_stop_is_sound(q, t);
}

proof fn a_signal_is_sound(
    job: PassJobModel,
    s: McStoreModel,
    b: BegunModel,
    signals: PassSignalsModel,
)
    requires
        sound(at(job, PassStageModel::Signal(held(b))), s),
    ensures
        sound(on_signals(job, b, signals), s),
{
    let g = GatedModel {
        begun: b,
        signals,
        gate: gated(b.start, signals.render_config, signals.outcome),
    };
    assert(faultless(job, b) && unmoved(job, s, b.start)) by {
        reveal(sound);
    }
    a_selection_is_sound(job, s, g, Seq::empty());
    assert(sound(at(job, PassStageModel::Select(held(g))), s)) by {
        reveal(sound);
    }
}

proof fn a_projection_stays_sound(
    p: TransformPassModel,
    s: McStoreModel,
    r: Result<FlatProjectionModel, Seq<char>>,
)
    requires
        p.stage is Project,
    ensures
        sound(takes_projection(p, s, r), s),
{
    match r {
        Ok(projection) => {
            a_projection_is_sound(p.job, s, projection);
        },
        Err(why) => {
            a_failure_is_sound(p.job, s, TransformErrorModel::CkWire(why));
        },
    }
}

proof fn a_selection_stays_sound(
    p: TransformPassModel,
    s: McStoreModel,
    reductions: Seq<ReductionDecisionModel>,
)
    requires
        sound(p, s),
        p.stage is Select,
    ensures
        sound(takes_selection(p, reductions), s),
{
    let g = p.stage->Select_0.value;
    assert(faultless(p.job, g.begun) && unmoved(p.job, s, g.begun.start) && g.gate == gated(
        g.begun.start,
        g.signals.render_config,
        g.signals.outcome,
    )) by {
        reveal(sound);
    }
    a_selection_is_sound(p.job, s, g, reductions);
}

proof fn a_plan_stays_sound(
    p: TransformPassModel,
    s: McStoreModel,
    plan: PassPlanModel,
    captured: Option<Seq<char>>,
)
    requires
        sound(p, s),
        p.stage is Plan,
    ensures
        sound(takes_plan(p, plan, captured), s),
{
    let c = p.stage->Plan_0.value;
    assert(faultless(p.job, c.gated.begun) && weighed(c) && unmoved(
        p.job,
        s,
        c.gated.begun.start,
    )) by {
        reveal(sound);
    }
    a_plan_is_sound(p.job, s, c, plan, captured);
}

proof fn a_composition_stays_sound(
    p: TransformPassModel,
    s: McStoreModel,
    r: Result<M0CompositionModel, TransformErrorModel>,
)
    requires
        sound(p, s),
        p.stage is Compose,
    ensures
        sound(takes_composition(p, s, r), s),
{
    let w = p.stage->Compose_0.value;
    assert(taken_in(p.job, w) && folds(w.plan) && unmoved(p.job, s, w.start())) by {
        reveal(sound);
    }
    match r {
        Ok(comp) => {
            a_composition_is_sound(p.job, s, w, comp);
        },
        Err(e) => {
            a_failure_is_sound(p.job, s, e);
        },
    }
}

proof fn a_recomposition_stays_sound(
    p: TransformPassModel,
    s: McStoreModel,
    r: Result<M0CompositionModel, TransformErrorModel>,
    m1_digest: u64,
)
    requires
        sound(p, s),
        p.stage is Recompose,
    ensures
        sound(takes_recomposition(p, r, m1_digest), s),
{
    let x = p.stage->Recompose_0.value;
    assert(taken_in(p.job, x.on) && folds(x.on.plan) && unmoved(p.job, s, x.on.start())) by {
        reveal(sound);
    }
    match r {
        Ok(comp) => {
            a_recomposition_is_sound(p.job, s, x.on, x.keep, comp, m1_digest);
        },
        Err(e) => {
            a_failure_is_sound(p.job, s, e);
        },
    }
}

proof fn a_delta_stays_sound(
    p: TransformPassModel,
    s: McStoreModel,
    r: Result<M1CompositionModel, TransformErrorModel>,
)
    requires
        sound(p, s),
        p.stage is ComposeDelta,
    ensures
        sound(takes_delta(p, r), s),
{
    let w = p.stage->ComposeDelta_0.value;
    assert(taken_in(p.job, w) && w.plan is Soft && unconfigured(w) && unmoved(
        p.job,
        s,
        w.start(),
    )) by {
        reveal(sound);
    }
    match r {
        Ok(delta) => {
            a_delta_is_sound(p.job, s, w, delta);
        },
        Err(e) => {
            a_failure_is_sound(p.job, s, e);
        },
    }
}

proof fn a_frozen_history_stays_sound(
    p: TransformPassModel,
    s: McStoreModel,
    core: CoreStateModel,
    recaptured: Option<Seq<char>>,
)
    requires
        sound(p, s),
        p.stage is FreezeHistory,
    ensures
        sound(takes_step(p, core, recaptured), s),
{
    let x = p.stage->FreezeHistory_0.value;
    assert(taken_in(p.job, x.on) && folds(x.on.plan) && unmoved(p.job, s, x.on.start())) by {
        reveal(sound);
    }
    a_fold_is_sound(p.job, s, x.on, x.comp, core, recaptured);
}

proof fn a_frozen_delta_stays_sound(
    p: TransformPassModel,
    s: McStoreModel,
    core: CoreStateModel,
    recaptured: Option<Seq<char>>,
)
    requires
        sound(p, s),
        p.stage is FreezeDelta,
    ensures
        sound(takes_step(p, core, recaptured), s),
{
    let x = p.stage->FreezeDelta_0.value;
    assert(taken_in(p.job, x.on) && x.on.plan is Soft && unconfigured(x.on) && unmoved(
        p.job,
        s,
        x.on.start(),
    )) by {
        reveal(sound);
    }
    a_frozen_delta_is_sound(p.job, s, x.on, x.delta, core);
}

proof fn a_replay_stays_sound(
    p: TransformPassModel,
    s: McStoreModel,
    core: CoreStateModel,
    recaptured: Option<Seq<char>>,
)
    requires
        sound(p, s),
        p.stage is Replay,
    ensures
        sound(takes_step(p, core, recaptured), s),
{
    let x = p.stage->Replay_0.value;
    assert(taken_in(p.job, x.on) && x.on.plan is Defer && unconfigured(x.on) && unmoved(
        p.job,
        s,
        x.on.start(),
    )) by {
        reveal(sound);
    }
    a_replay_is_sound(p.job, s, x.on, core);
}

proof fn an_injection_stays_sound(
    p: TransformPassModel,
    s: McStoreModel,
    injection: InjectionOutcomeModel,
)
    requires
        sound(p, s),
        p.stage is Inject,
    ensures
        sound(takes_injection(p, injection), s),
{
    let w = p.stage->Inject_0.value;
    assert(taken_in(p.job, w) && configured(w) && unmoved(p.job, s, w.start())) by {
        reveal(sound);
    }
    an_injection_is_sound(p.job, s, w, injection);
}

proof fn a_rendering_stays_sound(
    p: TransformPassModel,
    s: McStoreModel,
    reduced: Seq<ReducedBlockModel>,
    strips_reasoning: bool,
)
    requires
        p.stage is Render,
    ensures
        sound(
            takes_rendering(p, s, reduced, strips_reasoning).0,
            takes_rendering(p, s, reduced, strips_reasoning).1,
        ),
{
    an_end_is_sound(p.job, s, p.stage->Render_0.value.on, reduced, strips_reasoning);
}

pub(crate) proof fn an_answer_stays_sound(
    p: TransformPassModel,
    s: McStoreModel,
    event: PassEventModel,
)
    requires
        sound(p, s),
    ensures
        sound(next(p, s, event).0, next(p, s, event).1),
{
    if !waits_for(p.stage, event) {
        an_unawaited_answer_changes_nothing(p, s, event);
    } else {
        match event {
            PassEventModel::Projected(r) => {
                a_projection_stays_sound(p, s, r);
            },
            PassEventModel::Signals(signals) => {
                let b = p.stage->Signal_0;
                assert(p == at(p.job, PassStageModel::Signal(held(b.value))));
                a_signal_is_sound(p.job, s, b.value, signals);
            },
            PassEventModel::Selected(reductions) => {
                a_selection_stays_sound(p, s, reductions);
            },
            PassEventModel::Planned { plan, captured } => {
                a_plan_stays_sound(p, s, plan, captured);
            },
            PassEventModel::Composed(r) => {
                a_composition_stays_sound(p, s, r);
            },
            PassEventModel::Recomposed { comp, m1_digest } => {
                a_recomposition_stays_sound(p, s, comp, m1_digest);
            },
            PassEventModel::DeltaComposed(r) => {
                a_delta_stays_sound(p, s, r);
            },
            PassEventModel::Stepped { core, recaptured } => {
                if p.stage is FreezeHistory {
                    a_frozen_history_stays_sound(p, s, core, recaptured);
                } else if p.stage is FreezeDelta {
                    a_frozen_delta_stays_sound(p, s, core, recaptured);
                } else {
                    a_replay_stays_sound(p, s, core, recaptured);
                }
            },
            PassEventModel::Injected(injection) => {
                an_injection_stays_sound(p, s, injection);
            },
            PassEventModel::Rendered { reduced, strips_reasoning } => {
                a_rendering_stays_sound(p, s, reduced, strips_reasoning);
            },
        }
    }
}

/// What a run that renders has kept.
pub(crate) proof fn a_sound_rendering(p: TransformPassModel, s: McStoreModel, x: RenderingModel)
    requires
        sound(p, s),
        p.stage == PassStageModel::Render(held(x)),
    ensures
        taken_in(p.job, x.on),
        configured(x.on),
        unmoved(p.job, s, x.on.start()),
{
    reveal(sound);
}

} // verus!
