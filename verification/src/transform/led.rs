//! What every stage of a call keeps of what the deciders said.

use vstd::prelude::*;

use crate::meta::CoreStateModel;
use crate::rows::row_of;
use crate::store::records::TruncateOutcomeModel;
use crate::store::revert::{behind_cut, surviving, survivors_are_the_history, truncation};
use crate::store::McStoreModel;
use crate::transform::driving::{
    answered, answers_are_counted, asked, driven, ended, history_of, keeps_the_boundary, planned,
    shortened, signals_for, stepped, DecidersModel,
};
use crate::transform::errors::MAX_CAS_RETRIES;
use crate::transform::ingress::tail_items;
use crate::transform::laws::an_unserved_answer_writes_nothing;
use crate::transform::machine::{
    at, cuts, freezes, held, next, on_composed, on_delta, on_folded, on_frozen_delta, on_injected,
    on_planned, on_recomposed, on_rendered, on_replayed, on_selected, on_signals, settled,
    BegunModel, ChosenModel, DeltaStepModel, GatedModel, HistoryStepModel, PassEventModel,
    PassJobModel, PassStageModel, RecutModel, RenderingModel, ReplayStepModel, TransformPassModel,
    WorkingModel,
};
use crate::transform::output::reductions_to_render;
use crate::transform::pass::{
    busts, classified, cut_target, delta_done, folded, gated, recut_work, refolded, started,
    waiting_cut, work_begun, PassStartModel, PassWorkModel,
};
use crate::transform::stages::{
    a_stop_is_sound, an_answer_stays_sound, settling_keeps_the_record, sound,
};
use crate::transform::todo::InjectionOutcomeModel;
use crate::transform::types::{
    FlatProjectionModel, M0CompositionModel, M1CompositionModel, PassPlanModel, ReducedBlockModel,
    ReductionDecisionModel, StepAction, StepInputModel, TransformRequestModel,
};

verus! {

// --- what the deciders of a call said ----------------------------------------------------

/// Whether a choice came about as the deciders said.
#[verifier::opaque]
pub open spec fn chose(
    d: DecidersModel,
    request: TransformRequestModel,
    project: Seq<char>,
    s: McStoreModel,
    c: ChosenModel,
) -> bool {
    let begun = c.gated.begun;
    &&& (d.project)(request.messages) == Ok::<FlatProjectionModel, Seq<char>>(begun.projection)
    &&& begun.start == started(s, request, begun.projection, project)
    &&& c.gated.signals == signals_for(d, request, project, s, begun.start)
    &&& c.input == classified(begun.start, c.gated.gate, c.reductions, c.gated.signals.m1_digest)
}

/// Whether a digest is that of the history behind a cut that waits.
#[verifier::opaque]
pub open spec fn counted(
    d: DecidersModel,
    request: TransformRequestModel,
    project: Seq<char>,
    s: McStoreModel,
    work: PassWorkModel,
) -> bool {
    let session = request.session_id;
    work.m1_digest == (d.digest)(
        s,
        project,
        history_of(behind_cut(s, session, work.cut), session),
    )
}

/// Whether a pass that replays left alone what a replay leaves alone.
#[verifier::opaque]
pub open spec fn calm(w: WorkingModel) -> bool {
    &&& w.work.core.boundary_id == w.start().core.boundary_id
    &&& w.work.meta.m1_revision == w.start().meta.m1_revision
    &&& w.work.cut is None
}

/// Whether a pass follows the plan that the deciders gave it.
pub open spec fn follows(
    d: DecidersModel,
    job: PassJobModel,
    s: McStoreModel,
    w: WorkingModel,
) -> bool {
    &&& chose(d, job.request, job.project_path, s, w.chosen)
    &&& w.plan == planned(d, w.chosen.input)
    &&& w.plan !is Reject
}

/// What a replay hands to its step.
pub open spec fn replay_input(start: PassStartModel) -> StepInputModel {
    StepInputModel {
        proposed: StepAction::SoftPlus,
        boundary_present: start.boundary_token,
        rendered_units: Seq::empty(),
        new_boundary_id: None,
    }
}

/// Whether a pass that was not served stands where the deciders led it.
#[verifier::opaque]
pub open spec fn led(d: DecidersModel, p: TransformPassModel, s: McStoreModel) -> bool {
    let request = p.job.request;
    let project = p.job.project_path;
    match p.stage {
        PassStageModel::Signal(b) => {
            &&& (d.project)(request.messages) == Ok::<FlatProjectionModel, Seq<char>>(
                b.value.projection,
            )
            &&& b.value.start == started(s, request, b.value.projection, project)
        },
        PassStageModel::Select(g) => {
            let begun = g.value.begun;
            &&& (d.project)(request.messages) == Ok::<FlatProjectionModel, Seq<char>>(
                begun.projection,
            )
            &&& begun.start == started(s, request, begun.projection, project)
            &&& g.value.signals == signals_for(d, request, project, s, begun.start)
        },
        PassStageModel::Plan(c) => chose(d, request, project, s, c.value),
        PassStageModel::Compose(w) => {
            &&& follows(d, p.job, s, w.value)
            &&& w.value.plan !is Defer
            &&& counted(d, request, project, s, w.value.work)
        },
        PassStageModel::Recompose(x) => {
            let session = request.session_id;
            &&& follows(d, p.job, s, x.value.on)
            &&& x.value.on.plan !is Defer
            &&& x.value.history == history_of(
                behind_cut(s, session, x.value.on.work.cut),
                session,
            )
        },
        PassStageModel::FreezeHistory(x) => {
            &&& follows(d, p.job, s, x.value.on)
            &&& x.value.on.plan !is Defer
            &&& counted(d, request, project, s, x.value.on.work)
        },
        PassStageModel::ComposeDelta(w) => {
            &&& follows(d, p.job, s, w.value)
            &&& w.value.plan !is Defer
            &&& counted(d, request, project, s, w.value.work)
        },
        PassStageModel::FreezeDelta(x) => {
            &&& follows(d, p.job, s, x.value.on)
            &&& x.value.on.plan !is Defer
            &&& counted(d, request, project, s, x.value.on.work)
        },
        PassStageModel::Replay(x) => {
            &&& follows(d, p.job, s, x.value.on)
            &&& calm(x.value.on)
            &&& counted(d, request, project, s, x.value.on.work)
            &&& x.value.input == replay_input(x.value.on.start())
        },
        PassStageModel::Inject(w) => {
            &&& follows(d, p.job, s, w.value)
            &&& w.value.plan is Defer ==> calm(w.value)
            &&& counted(d, request, project, s, w.value.work)
        },
        PassStageModel::Render(x) => {
            &&& follows(d, p.job, s, x.value.on)
            &&& x.value.on.plan is Defer ==> calm(x.value.on)
            &&& counted(d, request, project, s, x.value.on.work)
            &&& x.value.wanted == reductions_to_render(
                x.value.on.work.core,
                x.value.on.projection().blocks,
            )
        },
        PassStageModel::Project | PassStageModel::Failed(_) => true,
        PassStageModel::Served(_) => false,
    }
}

proof fn a_stop_is_led(d: DecidersModel, p: TransformPassModel, s: McStoreModel)
    requires
        p.stage is Project || p.stage is Failed,
    ensures
        led(d, p, s),
{
    reveal(led);
}

proof fn a_projection_is_led(d: DecidersModel, job: PassJobModel, s: McStoreModel)
    ensures
        led(
            d,
            next(
                at(job, PassStageModel::Project),
                s,
                PassEventModel::Projected((d.project)(job.request.messages)),
            ).0,
            s,
        ),
{
    reveal(led);
}

proof fn a_choice_is_led(
    d: DecidersModel,
    job: PassJobModel,
    s: McStoreModel,
    g: GatedModel,
    reductions: Seq<ReductionDecisionModel>,
)
    requires
        (d.project)(job.request.messages) == Ok::<FlatProjectionModel, Seq<char>>(
            g.begun.projection,
        ),
        g.begun.start == started(s, job.request, g.begun.projection, job.project_path),
        g.signals == signals_for(d, job.request, job.project_path, s, g.begun.start),
    ensures
        led(d, on_selected(job, g, reductions), s),
{
    reveal(led);
    reveal(chose);
}

proof fn a_signal_is_led(d: DecidersModel, job: PassJobModel, s: McStoreModel, b: BegunModel)
    requires
        (d.project)(job.request.messages) == Ok::<FlatProjectionModel, Seq<char>>(b.projection),
        b.start == started(s, job.request, b.projection, job.project_path),
    ensures
        led(
            d,
            on_signals(
                job,
                b,
                signals_for(d, job.request, job.project_path, s, b.start),
            ),
            s,
        ),
{
    let signals = signals_for(d, job.request, job.project_path, s, b.start);
    let g = GatedModel {
        begun: b,
        signals,
        gate: gated(b.start, signals.render_config, signals.outcome),
    };
    a_choice_is_led(d, job, s, g, Seq::empty());
    assert(g.gate.producer_gate ==> led(d, at(job, PassStageModel::Select(held(g))), s)) by {
        reveal(led);
    }
}

proof fn work_begins_calm(
    d: DecidersModel,
    request: TransformRequestModel,
    project: Seq<char>,
    s: McStoreModel,
    c: ChosenModel,
    plan: PassPlanModel,
    captured: Option<Seq<char>>,
)
    requires
        chose(d, request, project, s, c),
    ensures
        ({
            let work = work_begun(
                c.gated.begun.start,
                request.usage,
                c.gated.begun.projection,
                c.gated.signals.outcome,
                plan,
                captured,
                c.gated.signals.m1_digest,
            );
            &&& counted(d, request, project, s, work)
            &&& calm(WorkingModel { chosen: c, plan, work })
        }),
{
    reveal(chose);
    reveal(counted);
    reveal(calm);
    reveal(work_begun);
}

proof fn a_plan_is_led(
    d: DecidersModel,
    job: PassJobModel,
    s: McStoreModel,
    c: ChosenModel,
    captured: Option<Seq<char>>,
)
    requires
        chose(d, job.request, job.project_path, s, c),
    ensures
        led(d, on_planned(job, c, planned(d, c.input), captured), s),
{
    let plan = planned(d, c.input);
    work_begins_calm(d, job.request, job.project_path, s, c, plan, captured);
    reveal(led);
}

proof fn a_freezing_is_led(
    d: DecidersModel,
    job: PassJobModel,
    s: McStoreModel,
    w: WorkingModel,
    comp: M0CompositionModel,
)
    requires
        follows(d, job, s, w),
        w.plan !is Defer,
        counted(d, job.request, job.project_path, s, w.work),
    ensures
        led(d, freezes(job, w, comp), s),
{
    reveal(led);
    reveal(counted);
}

proof fn a_cut_leaves_its_history(
    s: McStoreModel,
    session: Seq<char>,
    keep: i64,
    work: PassWorkModel,
    outcome: TruncateOutcomeModel,
)
    ensures
        surviving(s, session, keep) == history_of(
            behind_cut(s, session, recut_work(work, outcome, waiting_cut(s, session, keep)).cut),
            session,
        ),
{
    reveal(recut_work);
    survivors_are_the_history(s, session, keep, row_of(s.cache, session)->0);
}

proof fn a_cut_is_led(d: DecidersModel, job: PassJobModel, s: McStoreModel, w: WorkingModel)
    requires
        follows(d, job, s, w),
        w.plan !is Defer,
    ensures
        led(d, cuts(job, s, w), s),
{
    let session = job.request.session_id;
    let keep = cut_target(s, session, w.start().live);
    let row = row_of(s.cache, session)->0;
    let outcome = truncation(s, session, keep, row).1;
    a_cut_leaves_its_history(s, session, keep, w.work, outcome);
    reveal(led);
}

proof fn a_composition_is_led(
    d: DecidersModel,
    job: PassJobModel,
    s: McStoreModel,
    w: WorkingModel,
    comp: M0CompositionModel,
)
    requires
        follows(d, job, s, w),
        w.plan !is Defer,
        counted(d, job.request, job.project_path, s, w.work),
    ensures
        led(d, on_composed(job, s, w, comp), s),
{
    a_freezing_is_led(d, job, s, w, comp);
    a_cut_is_led(d, job, s, w);
    let q = on_composed(job, s, w, comp);
    if q.stage is Project || q.stage is Failed {
        a_stop_is_led(d, q, s);
    }
}

proof fn a_recomposition_is_led(
    d: DecidersModel,
    job: PassJobModel,
    s: McStoreModel,
    x: RecutModel,
    comp: M0CompositionModel,
)
    requires
        follows(d, job, s, x.on),
        x.on.plan !is Defer,
        x.history == history_of(
            behind_cut(s, job.request.session_id, x.on.work.cut),
            job.request.session_id,
        ),
    ensures
        led(
            d,
            on_recomposed(
                job,
                x.on,
                x.keep,
                comp,
                (d.digest)(s, job.project_path, x.history),
            ),
            s,
        ),
{
    let digest = (d.digest)(s, job.project_path, x.history);
    let work = refolded(x.on.work, comp, digest);
    assert(counted(d, job.request, job.project_path, s, work)) by {
        reveal(counted);
        reveal(refolded);
    }
    a_freezing_is_led(d, job, s, x.on.with_work(work), comp);
    let q = on_recomposed(job, x.on, x.keep, comp, digest);
    if q.stage is Project || q.stage is Failed {
        a_stop_is_led(d, q, s);
    }
}

proof fn a_fold_is_led(
    d: DecidersModel,
    job: PassJobModel,
    s: McStoreModel,
    w: WorkingModel,
    comp: M0CompositionModel,
    core: CoreStateModel,
    recaptured: Option<Seq<char>>,
)
    requires
        follows(d, job, s, w),
        w.plan !is Defer,
        counted(d, job.request, job.project_path, s, w.work),
    ensures
        led(d, on_folded(job, w, comp, core, recaptured), s),
{
    let work = folded(
        w.work,
        w.start(),
        core,
        comp,
        w.signals().render_config,
        job.now_ms,
        recaptured,
    );
    assert(counted(d, job.request, job.project_path, s, work)) by {
        reveal(counted);
        reveal(folded);
    }
    reveal(led);
}

proof fn a_delta_is_led(
    d: DecidersModel,
    job: PassJobModel,
    s: McStoreModel,
    w: WorkingModel,
    delta: M1CompositionModel,
)
    requires
        follows(d, job, s, w),
        w.plan !is Defer,
        counted(d, job.request, job.project_path, s, w.work),
    ensures
        led(d, on_delta(job, w, delta), s),
{
    reveal(led);
}

proof fn a_frozen_delta_is_led(
    d: DecidersModel,
    job: PassJobModel,
    s: McStoreModel,
    w: WorkingModel,
    delta: M1CompositionModel,
    core: CoreStateModel,
)
    requires
        follows(d, job, s, w),
        w.plan !is Defer,
        counted(d, job.request, job.project_path, s, w.work),
    ensures
        led(d, on_frozen_delta(job, w, delta, core), s),
{
    let work = delta_done(w.work, w.start(), core, delta);
    assert(counted(d, job.request, job.project_path, s, work)) by {
        reveal(counted);
        reveal(delta_done);
    }
    reveal(led);
}

proof fn a_replay_is_led(d: DecidersModel, job: PassJobModel, s: McStoreModel, x: ReplayStepModel)
    requires
        keeps_the_boundary(d),
        follows(d, job, s, x.on),
        calm(x.on),
        counted(d, job.request, job.project_path, s, x.on.work),
        x.input == replay_input(x.on.start()),
    ensures
        led(d, on_replayed(job, x.on, stepped(d, x.on.work.core, x.input)), s),
{
    let core = stepped(d, x.on.work.core, x.input);
    let work = PassWorkModel { core, ..x.on.work };
    assert(counted(d, job.request, job.project_path, s, work)) by {
        reveal(counted);
    }
    assert(calm(x.on.with_work(work))) by {
        reveal(calm);
    }
    reveal(led);
}

proof fn an_injection_is_led(
    d: DecidersModel,
    job: PassJobModel,
    s: McStoreModel,
    w: WorkingModel,
    injection: InjectionOutcomeModel,
)
    requires
        follows(d, job, s, w),
        w.plan is Defer ==> calm(w),
        counted(d, job.request, job.project_path, s, w.work),
    ensures
        led(d, on_injected(job, w, injection), s),
{
    match settled(job, w, injection) {
        Err(e) => {
            a_stop_is_led(d, on_injected(job, w, injection), s);
        },
        Ok(meta) => {
            settling_keeps_the_record(job, w, injection);
            let work = PassWorkModel { meta, ..w.work };
            assert(counted(d, job.request, job.project_path, s, work)) by {
                reveal(counted);
            }
            assert(w.plan is Defer ==> calm(w.with_work(work))) by {
                reveal(calm);
            }
            reveal(led);
        },
    }
}

proof fn a_project_stage_is_led(d: DecidersModel, job: PassJobModel, s: McStoreModel)
    ensures
        led(d, answered(d, at(job, PassStageModel::Project), s).0, s),
{
    reveal(answered);
    a_projection_is_led(d, job, s);
}

proof fn a_signal_stage_is_led(d: DecidersModel, job: PassJobModel, s: McStoreModel, b: BegunModel)
    requires
        led(d, at(job, PassStageModel::Signal(held(b))), s),
    ensures
        led(d, answered(d, at(job, PassStageModel::Signal(held(b))), s).0, s),
{
    reveal(answered);
    assert((d.project)(job.request.messages) == Ok::<FlatProjectionModel, Seq<char>>(b.projection)
        && b.start == started(s, job.request, b.projection, job.project_path)) by {
        reveal(led);
    }
    a_signal_is_led(d, job, s, b);
}

proof fn a_select_stage_is_led(d: DecidersModel, job: PassJobModel, s: McStoreModel, g: GatedModel)
    requires
        led(d, at(job, PassStageModel::Select(held(g))), s),
    ensures
        led(d, answered(d, at(job, PassStageModel::Select(held(g))), s).0, s),
{
    reveal(answered);
    assert((d.project)(job.request.messages) == Ok::<FlatProjectionModel, Seq<char>>(
        g.begun.projection,
    ) && g.begun.start == started(s, job.request, g.begun.projection, job.project_path)
        && g.signals == signals_for(d, job.request, job.project_path, s, g.begun.start)) by {
        reveal(led);
    }
    a_choice_is_led(d, job, s, g, (d.select)(g));
}

proof fn a_plan_stage_is_led(d: DecidersModel, job: PassJobModel, s: McStoreModel, c: ChosenModel)
    requires
        led(d, at(job, PassStageModel::Plan(held(c))), s),
    ensures
        led(d, answered(d, at(job, PassStageModel::Plan(held(c))), s).0, s),
{
    reveal(answered);
    assert(chose(d, job.request, job.project_path, s, c)) by {
        reveal(led);
    }
    let captured = (d.capture)(c.gated.gate.tail, c.gated.begun.start.meta.last_todo_state);
    a_plan_is_led(d, job, s, c, captured);
}

proof fn a_compose_stage_is_led(
    d: DecidersModel,
    job: PassJobModel,
    s: McStoreModel,
    w: WorkingModel,
)
    requires
        led(d, at(job, PassStageModel::Compose(held(w))), s),
    ensures
        led(d, answered(d, at(job, PassStageModel::Compose(held(w))), s).0, s),
{
    let p = at(job, PassStageModel::Compose(held(w)));
    let q = answered(d, p, s).0;
    reveal(answered);
    assert(follows(d, job, s, w) && w.plan !is Defer && counted(
        d,
        job.request,
        job.project_path,
        s,
        w.work,
    )) by {
        reveal(led);
    }
    match (d.compose)(s, job.project_path, history_of(s, job.request.session_id)) {
        Ok(comp) => {
            a_composition_is_led(d, job, s, w, comp);
        },
        Err(_) => {
            a_stop_is_led(d, q, s);
        },
    }
}

proof fn a_recompose_stage_is_led(
    d: DecidersModel,
    job: PassJobModel,
    s: McStoreModel,
    x: RecutModel,
)
    requires
        led(d, at(job, PassStageModel::Recompose(held(x))), s),
    ensures
        led(d, answered(d, at(job, PassStageModel::Recompose(held(x))), s).0, s),
{
    let p = at(job, PassStageModel::Recompose(held(x)));
    let q = answered(d, p, s).0;
    reveal(answered);
    assert(follows(d, job, s, x.on) && x.on.plan !is Defer && x.history == history_of(
        behind_cut(s, job.request.session_id, x.on.work.cut),
        job.request.session_id,
    )) by {
        reveal(led);
    }
    match (d.compose)(s, job.project_path, x.history) {
        Ok(comp) => {
            a_recomposition_is_led(d, job, s, x, comp);
        },
        Err(_) => {
            a_stop_is_led(d, q, s);
        },
    }
}

proof fn a_delta_stage_is_led(d: DecidersModel, job: PassJobModel, s: McStoreModel, w: WorkingModel)
    requires
        led(d, at(job, PassStageModel::ComposeDelta(held(w))), s),
    ensures
        led(d, answered(d, at(job, PassStageModel::ComposeDelta(held(w))), s).0, s),
{
    let p = at(job, PassStageModel::ComposeDelta(held(w)));
    let q = answered(d, p, s).0;
    reveal(answered);
    assert(follows(d, job, s, w) && w.plan !is Defer && counted(
        d,
        job.request,
        job.project_path,
        s,
        w.work,
    )) by {
        reveal(led);
    }
    match (d.compose_delta)(s, job.request.session_id, job.project_path, w.work.meta) {
        Ok(delta) => {
            a_delta_is_led(d, job, s, w, delta);
        },
        Err(_) => {
            a_stop_is_led(d, q, s);
        },
    }
}

proof fn a_history_step_is_led(
    d: DecidersModel,
    job: PassJobModel,
    s: McStoreModel,
    x: HistoryStepModel,
)
    requires
        led(d, at(job, PassStageModel::FreezeHistory(held(x))), s),
    ensures
        led(d, answered(d, at(job, PassStageModel::FreezeHistory(held(x))), s).0, s),
{
    reveal(answered);
    assert(follows(d, job, s, x.on) && x.on.plan !is Defer && counted(
        d,
        job.request,
        job.project_path,
        s,
        x.on.work,
    )) by {
        reveal(led);
    }
    let recaptured = (d.capture)(
        tail_items(x.on.start().live, x.comp.coverage_ordinal),
        x.on.work.meta.last_todo_state,
    );
    let core = stepped(d, x.on.work.core, x.input);
    a_fold_is_led(d, job, s, x.on, x.comp, core, recaptured);
}

proof fn a_delta_step_is_led(
    d: DecidersModel,
    job: PassJobModel,
    s: McStoreModel,
    x: DeltaStepModel,
)
    requires
        led(d, at(job, PassStageModel::FreezeDelta(held(x))), s),
    ensures
        led(d, answered(d, at(job, PassStageModel::FreezeDelta(held(x))), s).0, s),
{
    reveal(answered);
    assert(follows(d, job, s, x.on) && x.on.plan !is Defer && counted(
        d,
        job.request,
        job.project_path,
        s,
        x.on.work,
    )) by {
        reveal(led);
    }
    let core = stepped(d, x.on.work.core, x.input);
    a_frozen_delta_is_led(d, job, s, x.on, x.delta, core);
}

proof fn a_replay_step_is_led(
    d: DecidersModel,
    job: PassJobModel,
    s: McStoreModel,
    x: ReplayStepModel,
)
    requires
        keeps_the_boundary(d),
        led(d, at(job, PassStageModel::Replay(held(x))), s),
    ensures
        led(d, answered(d, at(job, PassStageModel::Replay(held(x))), s).0, s),
{
    reveal(answered);
    assert(follows(d, job, s, x.on) && calm(x.on) && counted(
        d,
        job.request,
        job.project_path,
        s,
        x.on.work,
    ) && x.input == replay_input(x.on.start())) by {
        reveal(led);
    }
    a_replay_is_led(d, job, s, x);
}

proof fn a_todo_stage_is_led(d: DecidersModel, job: PassJobModel, s: McStoreModel, w: WorkingModel)
    requires
        led(d, at(job, PassStageModel::Inject(held(w))), s),
    ensures
        led(d, answered(d, at(job, PassStageModel::Inject(held(w))), s).0, s),
{
    reveal(answered);
    assert(follows(d, job, s, w) && (w.plan is Defer ==> calm(w)) && counted(
        d,
        job.request,
        job.project_path,
        s,
        w.work,
    )) by {
        reveal(led);
    }
    an_injection_is_led(d, job, s, w, (d.inject)(w.work.meta, busts(w.plan)));
}

proof fn a_rendering_is_led(d: DecidersModel, job: PassJobModel, s: McStoreModel, x: RenderingModel)
    ensures
        ({
            let q = answered(d, at(job, PassStageModel::Render(held(x))), s).0;
            q.stage !is Served ==> led(d, q, s)
        }),
{
    reveal(answered);
    let q = answered(d, at(job, PassStageModel::Render(held(x))), s).0;
    let reduced = shortened(d, x.wanted);
    let strips = (d.strips)(job.request.serializer_profile);
    a_rendering_stops(job, s, x.on, reduced, strips);
    if q.stage !is Served {
        a_stop_is_led(d, q, s);
    }
}

proof fn a_rendering_stops(
    job: PassJobModel,
    s: McStoreModel,
    w: WorkingModel,
    reduced: Seq<ReducedBlockModel>,
    strips_reasoning: bool,
)
    ensures
        ({
            let q = on_rendered(job, s, w, reduced, strips_reasoning).0;
            q.stage is Project || q.stage is Served || q.stage is Failed
        }),
{
}

proof fn an_answer_is_led(d: DecidersModel, p: TransformPassModel, s: McStoreModel)
    requires
        keeps_the_boundary(d),
        led(d, p, s),
        !ended(p),
    ensures
        p.stage !is Render ==> answered(d, p, s).0.stage !is Served,
        answered(d, p, s).0.stage !is Served ==> led(d, answered(d, p, s).0, s),
{
    let job = p.job;
    match p.stage {
        PassStageModel::Signal(x) => {
            assert(p == at(job, PassStageModel::Signal(held(x.value))));
            a_signal_stage_is_led(d, job, s, x.value);
        },
        PassStageModel::Select(x) => {
            assert(p == at(job, PassStageModel::Select(held(x.value))));
            a_select_stage_is_led(d, job, s, x.value);
        },
        PassStageModel::Plan(x) => {
            assert(p == at(job, PassStageModel::Plan(held(x.value))));
            a_plan_stage_is_led(d, job, s, x.value);
        },
        PassStageModel::Compose(x) => {
            assert(p == at(job, PassStageModel::Compose(held(x.value))));
            a_compose_stage_is_led(d, job, s, x.value);
        },
        PassStageModel::Recompose(x) => {
            assert(p == at(job, PassStageModel::Recompose(held(x.value))));
            a_recompose_stage_is_led(d, job, s, x.value);
        },
        PassStageModel::FreezeHistory(x) => {
            assert(p == at(job, PassStageModel::FreezeHistory(held(x.value))));
            a_history_step_is_led(d, job, s, x.value);
        },
        PassStageModel::ComposeDelta(x) => {
            assert(p == at(job, PassStageModel::ComposeDelta(held(x.value))));
            a_delta_stage_is_led(d, job, s, x.value);
        },
        PassStageModel::FreezeDelta(x) => {
            assert(p == at(job, PassStageModel::FreezeDelta(held(x.value))));
            a_delta_step_is_led(d, job, s, x.value);
        },
        PassStageModel::Replay(x) => {
            assert(p == at(job, PassStageModel::Replay(held(x.value))));
            a_replay_step_is_led(d, job, s, x.value);
        },
        PassStageModel::Inject(x) => {
            assert(p == at(job, PassStageModel::Inject(held(x.value))));
            a_todo_stage_is_led(d, job, s, x.value);
        },
        PassStageModel::Render(x) => {
            assert(p == at(job, PassStageModel::Render(held(x.value))));
            a_rendering_is_led(d, job, s, x.value);
        },
        _ => {
            assert(p == at(job, PassStageModel::Project));
            a_project_stage_is_led(d, job, s);
        },
    }
    if p.stage !is Render {
        led_is_unserved(d, answered(d, p, s).0, s);
    }
}

proof fn led_is_unserved(d: DecidersModel, p: TransformPassModel, s: McStoreModel)
    requires
        led(d, p, s),
    ensures
        p.stage !is Served,
{
    reveal(led);
}

/// The stage at which a call was served.
pub(crate) proof fn served_last(
    d: DecidersModel,
    p: TransformPassModel,
    s: McStoreModel,
    n: nat,
) -> (q: TransformPassModel)
    requires
        keeps_the_boundary(d),
        p.job.attempt <= MAX_CAS_RETRIES,
        p.stage is Project,
        driven(d, p, s, n).0.stage is Served,
    ensures
        q.stage is Render,
        q.job == (PassJobModel { attempt: q.job.attempt, ..p.job }),
        q.job.attempt <= MAX_CAS_RETRIES,
        sound(q, s),
        led(d, q, s),
        driven(d, p, s, n) == answered(d, q, s),
    decreases n,
{
    let before = (n - 1) as nat;
    let (q, t) = driven(d, p, s, before);
    if q.stage is Served {
        served_last(d, p, s, before)
    } else {
        led_so_far(d, p, s, before);
        answers_are_counted(d, p, s, before);
        an_answer_is_led(d, q, t);
        q
    }
}

proof fn an_asked_answer_stays_sound(d: DecidersModel, p: TransformPassModel, s: McStoreModel)
    requires
        sound(p, s),
        answered(d, p, s).0.stage !is Served,
    ensures
        answered(d, p, s).1 == s,
        sound(answered(d, p, s).0, s),
{
    reveal(answered);
    an_answer_stays_sound(p, s, asked(d, p, s));
    an_unserved_answer_writes_nothing(p, s, asked(d, p, s));
}

proof fn led_so_far(d: DecidersModel, p: TransformPassModel, s: McStoreModel, n: nat)
    requires
        keeps_the_boundary(d),
        p.stage is Project,
        driven(d, p, s, n).0.stage !is Served,
    ensures
        driven(d, p, s, n).1 == s,
        sound(driven(d, p, s, n).0, s),
        led(d, driven(d, p, s, n).0, s),
    decreases n,
{
    if n == 0 {
        a_stop_is_sound(p, s);
        a_stop_is_led(d, p, s);
    } else {
        let (q, t) = driven(d, p, s, (n - 1) as nat);
        led_so_far(d, p, s, (n - 1) as nat);
        if !ended(q) {
            an_answer_is_led(d, q, t);
            an_asked_answer_stays_sound(d, q, t);
        }
    }
}

} // verus!
