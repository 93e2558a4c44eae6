//! A pass in which nothing is due, step by step.

use vstd::prelude::*;

use crate::meta::ModuleMetaModel;
use crate::rows::{find_where, keep_where};
use crate::store::cache::{loaded, version_found};
use crate::store::McStoreModel;
use crate::transform::errors::TransformErrorModel;
use crate::transform::ingress::{current_shape, legacy_shape, vanished};
use crate::transform::intake::{absorbed, absorbed_stays, mids_differ, same_intake};
use crate::transform::laws::a_served_pass_is_stored;
use crate::transform::machine::{
    at, ends, held, next, on_planned, on_projected, on_signals, settled, takes_rendering,
    BegunModel, ChosenModel, GatedModel, PassEventModel, PassJobModel, PassSignalsModel,
    PassStageModel, RenderingModel, TransformPassModel, TransformWithProjectionModel, WorkingModel,
};
use crate::transform::output::{output_of, output_reads_two_fields, reductions_to_render};
use crate::transform::pass::{
    answer, busts, classified, committed_meta, gated, holds_boundary, start_fault, started,
    watermarked, work_begun, PassWorkModel,
};
use crate::transform::reductions::{frozen_targets, live_block};
use crate::transform::stages::{
    a_sound_rendering, configured, faultless, folds, sound, unmoved, weighed,
};
use crate::transform::todo::InjectionOutcomeModel;
use crate::transform::types::{
    FlatProjectionModel, PassDecision, PassPlanModel, ReducedBlockModel, StepAction,
};
use crate::wire::CkWireMessageModel;

verus! {

// --- the state behind a served pass -----------------------------------------------------

/// Whether a stored record is what a pass served with, but for the time of its commit.
spec fn left_by(now: ModuleMetaModel, meta: ModuleMetaModel) -> bool {
    &&& same_intake(meta, now)
    &&& now.coverage_ordinal == meta.coverage_ordinal
    &&& now.synthetic_todo == meta.synthetic_todo
    &&& now.initialized == meta.initialized
    &&& now.last_render_config == meta.last_render_config
    &&& now.m1_revision == meta.m1_revision
}

proof fn a_commit_leaves_the_record(work: PassWorkModel, now_ms: i64)
    ensures
        left_by(committed_meta(work, now_ms), work.meta),
{
    reveal(committed_meta);
    reveal(same_intake);
}

proof fn a_served_pass_leaves_its_state(
    p: TransformPassModel,
    s: McStoreModel,
    reduced: Seq<ReducedBlockModel>,
    strips_reasoning: bool,
    x: RenderingModel,
    done: TransformWithProjectionModel,
)
    requires
        p.stage == PassStageModel::Render(held(x)),
        unmoved(p.job, s, x.on.start()),
        takes_rendering(p, s, reduced, strips_reasoning).0.stage == PassStageModel::Served(
            held(done),
        ),
    ensures
        ({
            let t = takes_rendering(p, s, reduced, strips_reasoning).1;
            let now = loaded(t, p.job.request.session_id);
            &&& version_found(t, p.job.request.session_id) == done.response.row_version
            &&& now.core == x.on.work.core
            &&& left_by(now.meta, x.on.work.meta)
        }),
{
    let session = p.job.request.session_id;
    a_served_pass_is_stored(p, s, reduced, strips_reasoning, x, done);
    if done.response.committed {
        a_commit_leaves_the_record(x.on.work, p.job.now_ms);
    } else {
        reveal(answer);
        reveal(unmoved);
        reveal(same_intake);
        let start = x.on.start();
        assert(done.response.row_version == match start.row_version {
            Some(v) => v,
            None => 0,
        });
        assert(x.on.work.core == start.core && x.on.work.meta == start.meta);
    }
}

// --- a pass in which nothing is due -----------------------------------------------------

/// Whether nothing is due for a session in a store: its history was rendered, under the
/// configuration of these signals, its boundary is in the conversation, and the scheduler
/// defers.
#[verifier::opaque]
pub open spec fn nothing_due(
    job: PassJobModel,
    t: McStoreModel,
    projection: FlatProjectionModel,
    signals: PassSignalsModel,
) -> bool {
    let now = loaded(t, job.request.session_id);
    &&& start_fault(t, job.request, projection) is None
    &&& absorbed(now.meta, job.request.usage, projection, signals.outcome)
    &&& signals.outcome.pass == PassDecision::Defer
    &&& !signals.outcome.idle_ttl_fired
    &&& now.meta.initialized
    &&& now.meta.last_render_config == signals.render_config
    &&& !now.core.reconcile_pending
    &&& holds_boundary(keep_where(projection.blocks, live_block()), now.core.boundary_id)
}

/// What the pass begins with where nothing is due.
proof fn a_quiet_start(
    job: PassJobModel,
    t: McStoreModel,
    projection: FlatProjectionModel,
    signals: PassSignalsModel,
)
    requires
        nothing_due(job, t, projection, signals),
    ensures
        ({
            let now = loaded(t, job.request.session_id);
            let start = started(t, job.request, projection, job.project_path);
            let gate = gated(start, signals.render_config, signals.outcome);
            let input = classified(start, gate, Seq::empty(), signals.m1_digest);
            &&& start.core == now.core
            &&& start.meta == now.meta
            &&& start.row_version == now.row_version
            &&& start.boundary_token == now.core.boundary_id
            &&& !gate.producer_gate
            &&& input.initialized
            &&& !input.render_config_changed
            &&& !input.hard_fold_requested
            &&& input.boundary_present
            &&& !input.reconcile_pending
            &&& !input.reductions_pending
            &&& input.is_legacy_baseline == legacy_shape(now.core)
            &&& input.valid_m0m1_shape == current_shape(now.core)
            &&& input.m1_revision_changed == (signals.m1_digest != now.meta.m1_revision)
        }),
{
    reveal(nothing_due);
    reveal(started);
    reveal(gated);
    reveal(classified);
}

/// The stage at which a quiet pass asks for its plan.
#[verifier::opaque]
pub open spec fn quiet_choice(
    job: PassJobModel,
    t: McStoreModel,
    projection: FlatProjectionModel,
    signals: PassSignalsModel,
) -> ChosenModel {
    let start = started(t, job.request, projection, job.project_path);
    let gate = gated(start, signals.render_config, signals.outcome);
    ChosenModel {
        gated: GatedModel { begun: BegunModel { projection, start }, signals, gate },
        reductions: Seq::empty(),
        input: classified(start, gate, Seq::empty(), signals.m1_digest),
    }
}

/// A quiet pass with its state as it was.
#[verifier::opaque]
pub open spec fn quiet_work(
    job: PassJobModel,
    t: McStoreModel,
    projection: FlatProjectionModel,
    signals: PassSignalsModel,
) -> WorkingModel {
    let now = loaded(t, job.request.session_id);
    WorkingModel {
        chosen: quiet_choice(job, t, projection, signals),
        plan: PassPlanModel::Defer,
        work: PassWorkModel {
            core: now.core,
            meta: now.meta,
            expected: now.row_version,
            cut: None,
            m1_digest: signals.m1_digest,
            coverage_shrunk: false,
        },
    }
}

proof fn a_quiet_plan(
    job: PassJobModel,
    t: McStoreModel,
    projection: FlatProjectionModel,
    signals: PassSignalsModel,
    captured: Option<Seq<char>>,
)
    requires
        nothing_due(job, t, projection, signals),
    ensures
        ({
            let q = on_planned(
                job,
                quiet_choice(job, t, projection, signals),
                PassPlanModel::Defer,
                captured,
            );
            &&& q.job == job
            &&& q.stage matches PassStageModel::Replay(x)
            &&& x.value.on == quiet_work(job, t, projection, signals)
            &&& x.value.input.proposed == StepAction::SoftPlus
            &&& x.value.input.boundary_present == loaded(t, job.request.session_id).core.boundary_id
            &&& x.value.input.rendered_units.len() == 0
            &&& x.value.input.new_boundary_id is None
        }),
{
    a_quiet_start(job, t, projection, signals);
    reveal(nothing_due);
    reveal(quiet_choice);
    reveal(quiet_work);
    reveal(work_begun);
    reveal(absorbed);
}

proof fn a_quiet_settlement(
    job: PassJobModel,
    t: McStoreModel,
    projection: FlatProjectionModel,
    signals: PassSignalsModel,
    injection: InjectionOutcomeModel,
)
    requires
        nothing_due(job, t, projection, signals),
        injection is Nothing || injection is Keep,
    ensures
        settled(job, quiet_work(job, t, projection, signals), injection) == Ok::<
            ModuleMetaModel,
            TransformErrorModel,
        >(loaded(t, job.request.session_id).meta),
{
    reveal(watermarked);
    reveal(nothing_due);
    reveal(quiet_choice);
    reveal(quiet_work);
    let w = quiet_work(job, t, projection, signals);
    assert(watermarked(
        w.work.meta,
        w.start(),
        w.gate(),
        w.signals().outcome.pass,
        busts(w.plan),
        w.chosen.input.reductions_pending,
    ) == w.work.meta);
}

proof fn a_quiet_end(
    job: PassJobModel,
    t: McStoreModel,
    projection: FlatProjectionModel,
    signals: PassSignalsModel,
    messages: Seq<CkWireMessageModel>,
)
    requires
        nothing_due(job, t, projection, signals),
    ensures
        ({
            let w = quiet_work(job, t, projection, signals);
            ends(job, t, w, messages) == (
                at(
                    job,
                    PassStageModel::Served(
                        held(
                            TransformWithProjectionModel {
                                response: answer(
                                    job.request,
                                    w.work,
                                    PassPlanModel::Defer,
                                    version_found(t, job.request.session_id),
                                    false,
                                    messages,
                                ),
                                projection,
                                scheduler_pass: PassDecision::Defer,
                            },
                        ),
                    ),
                ),
                t,
            )
        }),
{
    a_quiet_start(job, t, projection, signals);
    reveal(nothing_due);
    reveal(quiet_choice);
    reveal(quiet_work);
}

/// What a quiet pass asks for its plan with.
pub(crate) proof fn a_quiet_choice(
    job: PassJobModel,
    t: McStoreModel,
    projection: FlatProjectionModel,
    signals: PassSignalsModel,
)
    ensures
        ({
            let begun = quiet_choice(job, t, projection, signals).gated.begun;
            &&& begun.projection == projection
            &&& begun.start == started(t, job.request, projection, job.project_path)
        }),
{
    reveal(quiet_choice);
}

/// Whether an answer leads a pass somewhere.
#[verifier::opaque]
pub open spec fn leads(
    p: TransformPassModel,
    s: McStoreModel,
    event: PassEventModel,
    r: (TransformPassModel, McStoreModel),
) -> bool {
    next(p, s, event) == r
}

/// A quiet pass that replays.
#[verifier::opaque]
pub open spec fn quiet_replay(
    job: PassJobModel,
    t: McStoreModel,
    projection: FlatProjectionModel,
    signals: PassSignalsModel,
    captured: Option<Seq<char>>,
) -> TransformPassModel {
    on_planned(job, quiet_choice(job, t, projection, signals), PassPlanModel::Defer, captured)
}

/// What a quiet pass replays.
pub(crate) proof fn a_quiet_replay(
    job: PassJobModel,
    t: McStoreModel,
    projection: FlatProjectionModel,
    signals: PassSignalsModel,
    captured: Option<Seq<char>>,
)
    requires
        nothing_due(job, t, projection, signals),
    ensures
        ({
            let now = loaded(t, job.request.session_id);
            let q = quiet_replay(job, t, projection, signals, captured);
            &&& q.job == job
            &&& q.stage matches PassStageModel::Replay(x)
            &&& x.value.on.work.core == now.core
            &&& x.value.input.proposed == StepAction::SoftPlus
            &&& x.value.input.boundary_present == now.core.boundary_id
            &&& x.value.input.rendered_units.len() == 0
            &&& x.value.input.new_boundary_id is None
            &&& !now.core.reconcile_pending
        }),
{
    reveal(quiet_replay);
    a_quiet_plan(job, t, projection, signals, captured);
    a_quiet_step(job, t, projection, signals);
    reveal(nothing_due);
}

/// A quiet pass at its end.
#[verifier::opaque]
pub open spec fn quiet_end(
    job: PassJobModel,
    t: McStoreModel,
    projection: FlatProjectionModel,
    signals: PassSignalsModel,
    messages: Seq<CkWireMessageModel>,
) -> (TransformPassModel, McStoreModel) {
    ends(job, t, quiet_work(job, t, projection, signals), messages)
}

proof fn a_quiet_projection(
    job: PassJobModel,
    t: McStoreModel,
    projection: FlatProjectionModel,
    signals: PassSignalsModel,
)
    requires
        nothing_due(job, t, projection, signals),
    ensures
        on_projected(job, t, projection) == at(
            job,
            PassStageModel::Signal(
                held(quiet_choice(job, t, projection, signals).gated.begun),
            ),
        ),
{
    reveal(nothing_due);
    reveal(quiet_choice);
}

proof fn a_quiet_signal(
    job: PassJobModel,
    t: McStoreModel,
    projection: FlatProjectionModel,
    signals: PassSignalsModel,
)
    requires
        nothing_due(job, t, projection, signals),
    ensures
        ({
            let chosen = quiet_choice(job, t, projection, signals);
            on_signals(job, chosen.gated.begun, signals) == at(
                job,
                PassStageModel::Plan(held(chosen)),
            )
        }),
{
    a_quiet_start(job, t, projection, signals);
    reveal(quiet_choice);
}

pub(crate) proof fn a_quiet_step(
    job: PassJobModel,
    t: McStoreModel,
    projection: FlatProjectionModel,
    signals: PassSignalsModel,
)
    ensures
        ({
            let w = quiet_work(job, t, projection, signals);
            let now = loaded(t, job.request.session_id);
            &&& w.with_work(PassWorkModel { core: now.core, ..w.work }) == w
            &&& w.with_work(PassWorkModel { meta: now.meta, ..w.work }) == w
            &&& w.work.core == now.core
            &&& w.work.meta == now.meta
            &&& w.projection() == projection
        }),
{
    reveal(quiet_choice);
    reveal(quiet_work);
}

pub(crate) proof fn quiet_till_the_plan(
    job: PassJobModel,
    t: McStoreModel,
    projection: FlatProjectionModel,
    signals: PassSignalsModel,
    captured: Option<Seq<char>>,
)
    requires
        nothing_due(job, t, projection, signals),
    ensures
        ({
            let chosen = quiet_choice(job, t, projection, signals);
            let p = at(job, PassStageModel::Project);
            let one = at(job, PassStageModel::Signal(held(chosen.gated.begun)));
            let two = at(job, PassStageModel::Plan(held(chosen)));
            let three = quiet_replay(job, t, projection, signals, captured);
            &&& leads(p, t, PassEventModel::Projected(Ok(projection)), (one, t))
            &&& leads(one, t, PassEventModel::Signals(signals), (two, t))
            &&& leads(
                two,
                t,
                PassEventModel::Planned { plan: PassPlanModel::Defer, captured },
                (three, t),
            )
        }),
{
    reveal(leads);
    reveal(quiet_replay);
    a_quiet_projection(job, t, projection, signals);
    a_quiet_signal(job, t, projection, signals);
}

pub(crate) proof fn quiet_till_the_todo(
    job: PassJobModel,
    t: McStoreModel,
    projection: FlatProjectionModel,
    signals: PassSignalsModel,
    captured: Option<Seq<char>>,
    recaptured: Option<Seq<char>>,
)
    requires
        nothing_due(job, t, projection, signals),
    ensures
        ({
            let three = quiet_replay(job, t, projection, signals, captured);
            let w = quiet_work(job, t, projection, signals);
            let core = loaded(t, job.request.session_id).core;
            &&& three.stage is Replay
            &&& leads(
                three,
                t,
                PassEventModel::Stepped { core, recaptured },
                (at(job, PassStageModel::Inject(held(w))), t),
            )
        }),
{
    reveal(leads);
    reveal(quiet_replay);
    a_quiet_plan(job, t, projection, signals, captured);
    a_quiet_step(job, t, projection, signals);
}

pub(crate) proof fn quiet_till_the_rendering(
    job: PassJobModel,
    t: McStoreModel,
    projection: FlatProjectionModel,
    signals: PassSignalsModel,
    injection: InjectionOutcomeModel,
)
    requires
        nothing_due(job, t, projection, signals),
        injection is Nothing || injection is Keep,
    ensures
        ({
            let w = quiet_work(job, t, projection, signals);
            let core = loaded(t, job.request.session_id).core;
            let x = RenderingModel { on: w, wanted: reductions_to_render(core, projection.blocks) };
            leads(
                at(job, PassStageModel::Inject(held(w))),
                t,
                PassEventModel::Injected(injection),
                (at(job, PassStageModel::Render(held(x))), t),
            )
        }),
{
    reveal(leads);
    a_quiet_settlement(job, t, projection, signals, injection);
    a_quiet_step(job, t, projection, signals);
}

pub(crate) proof fn quiet_till_the_end(
    job: PassJobModel,
    t: McStoreModel,
    projection: FlatProjectionModel,
    signals: PassSignalsModel,
    reduced: Seq<ReducedBlockModel>,
    strips_reasoning: bool,
    messages: Seq<CkWireMessageModel>,
)
    requires
        ({
            let now = loaded(t, job.request.session_id);
            output_of(
                now.core,
                now.meta,
                job.request.messages,
                projection.blocks,
                reduced,
                strips_reasoning,
            ) == Ok::<Seq<CkWireMessageModel>, TransformErrorModel>(messages)
        }),
    ensures
        ({
            let w = quiet_work(job, t, projection, signals);
            let core = loaded(t, job.request.session_id).core;
            let x = RenderingModel { on: w, wanted: reductions_to_render(core, projection.blocks) };
            leads(
                at(job, PassStageModel::Render(held(x))),
                t,
                PassEventModel::Rendered { reduced, strips_reasoning },
                quiet_end(job, t, projection, signals, messages),
            )
        }),
{
    reveal(leads);
    reveal(quiet_end);
    a_quiet_step(job, t, projection, signals);
}

/// What a deferred pass leaves: nothing is due for the same request.
pub(crate) proof fn behind_a_deferred_pass(
    p: TransformPassModel,
    s: McStoreModel,
    x: RenderingModel,
    reduced: Seq<ReducedBlockModel>,
    strips_reasoning: bool,
    done: TransformWithProjectionModel,
    again: PassJobModel,
    signals: PassSignalsModel,
)
    requires
        sound(p, s),
        p.stage == PassStageModel::Render(held(x)),
        ({
            let (q, t) = takes_rendering(p, s, reduced, strips_reasoning);
            let now = loaded(t, p.job.request.session_id);
            &&& q.stage == PassStageModel::Served(held(done))
            &&& find_where(frozen_targets(now.core.frozen_units), vanished(done.projection))
                is None
        }),
        mids_differ(done.projection.identity_by_mid),
        done.scheduler_pass == PassDecision::Defer,
        !done.response.reconcile_pending,
        holds_boundary(
            keep_where(done.projection.blocks, live_block()),
            done.response.boundary_id,
        ),
        folds(x.on.plan) || (x.on.chosen.input.initialized
            && !x.on.chosen.input.render_config_changed),
        again.request == p.job.request,
        signals.render_config == x.on.signals().render_config,
        signals.outcome == x.on.signals().outcome,
        !signals.outcome.idle_ttl_fired,
    ensures
        ({
            let t = takes_rendering(p, s, reduced, strips_reasoning).1;
            let now = loaded(t, p.job.request.session_id);
            &&& nothing_due(again, t, done.projection, signals)
            &&& version_found(t, p.job.request.session_id) == done.response.row_version
            &&& output_of(
                now.core,
                now.meta,
                again.request.messages,
                done.projection.blocks,
                reduced,
                strips_reasoning,
            ) == Ok::<Seq<CkWireMessageModel>, TransformErrorModel>(done.response.ck_messages->0)
            &&& done.response.ck_messages is Some
            &&& now.core.boundary_id == done.response.boundary_id
            &&& !now.core.reconcile_pending
            &&& now.meta.coverage_ordinal == done.response.coverage_ordinal
            &&& now.meta.m1_revision == x.on.work.meta.m1_revision
            &&& busts(x.on.plan) ==> now.meta.m1_revision == x.on.work.m1_digest
        }),
{
    let t = takes_rendering(p, s, reduced, strips_reasoning).1;
    let now = loaded(t, p.job.request.session_id);
    a_sound_rendering(p, s, x);
    a_served_pass_leaves_its_state(p, s, reduced, strips_reasoning, x, done);
    a_served_pass_is_stored(p, s, reduced, strips_reasoning, x, done);
    served_as_worked(p, s, reduced, strips_reasoning, x, done);
    absorbed_stays(
        x.on.work.meta,
        now.meta,
        p.job.request.usage,
        done.projection,
        signals.outcome,
    );
    assert(now.meta.initialized && now.meta.last_render_config == signals.render_config) by {
        reveal(configured);
        reveal(weighed);
    }
    assert(busts(x.on.plan) ==> now.meta.m1_revision == x.on.work.m1_digest) by {
        reveal(configured);
    }
    assert(start_fault(t, again.request, done.projection) is None) by {
        reveal(faultless);
        reveal(absorbed);
    }
    assert(nothing_due(again, t, done.projection, signals)) by {
        reveal(nothing_due);
    }
    output_reads_two_fields(
        now.core,
        x.on.work.meta,
        now.meta,
        again.request.messages,
        done.projection.blocks,
        reduced,
        strips_reasoning,
    );
}

/// A served pass leaves the cache that it worked out.
pub(crate) proof fn a_served_core(
    p: TransformPassModel,
    s: McStoreModel,
    reduced: Seq<ReducedBlockModel>,
    strips_reasoning: bool,
    x: RenderingModel,
    done: TransformWithProjectionModel,
)
    requires
        sound(p, s),
        p.stage == PassStageModel::Render(held(x)),
        takes_rendering(p, s, reduced, strips_reasoning).0.stage == PassStageModel::Served(
            held(done),
        ),
    ensures
        loaded(
            takes_rendering(p, s, reduced, strips_reasoning).1,
            p.job.request.session_id,
        ).core == x.on.work.core,
{
    a_sound_rendering(p, s, x);
    a_served_pass_leaves_its_state(p, s, reduced, strips_reasoning, x, done);
}

/// An answer says what the pass worked out.
pub(crate) proof fn served_as_worked(
    p: TransformPassModel,
    s: McStoreModel,
    reduced: Seq<ReducedBlockModel>,
    strips_reasoning: bool,
    x: RenderingModel,
    done: TransformWithProjectionModel,
)
    requires
        p.stage == PassStageModel::Render(held(x)),
        takes_rendering(p, s, reduced, strips_reasoning).0.stage == PassStageModel::Served(
            held(done),
        ),
    ensures
        done.projection == x.on.projection(),
        done.scheduler_pass == x.on.signals().outcome.pass,
        done.response.ck_messages is Some,
        done.response.boundary_id == x.on.work.core.boundary_id,
        done.response.reconcile_pending == x.on.work.core.reconcile_pending,
        done.response.coverage_ordinal == x.on.work.meta.coverage_ordinal,
{
    reveal(answer);
}

/// What the answer of a quiet run says.
pub(crate) proof fn a_quiet_answer(
    job: PassJobModel,
    t: McStoreModel,
    projection: FlatProjectionModel,
    signals: PassSignalsModel,
    messages: Seq<CkWireMessageModel>,
)
    requires
        nothing_due(job, t, projection, signals),
    ensures
        ({
            let now = loaded(t, job.request.session_id);
            let (q, after) = quiet_end(job, t, projection, signals, messages);
            &&& after == t
            &&& q.stage matches PassStageModel::Served(repeated)
            &&& repeated.value.response.action == "SOFT+"@
            &&& !repeated.value.response.committed
            &&& repeated.value.response.row_version == version_found(t, job.request.session_id)
            &&& repeated.value.response.ck_messages == Some(messages)
            &&& repeated.value.response.boundary_id == now.core.boundary_id
            &&& repeated.value.response.reconcile_pending == now.core.reconcile_pending
            &&& repeated.value.response.coverage_ordinal == now.meta.coverage_ordinal
            &&& repeated.value.scheduler_pass == PassDecision::Defer
        }),
{
    a_quiet_end(job, t, projection, signals, messages);
    reveal(quiet_end);
    reveal(answer);
    reveal(quiet_work);
}

/// What decides the plan where nothing is due.
pub(crate) proof fn a_quiet_input(
    job: PassJobModel,
    t: McStoreModel,
    projection: FlatProjectionModel,
    signals: PassSignalsModel,
)
    requires
        nothing_due(job, t, projection, signals),
    ensures
        ({
            let now = loaded(t, job.request.session_id);
            let input = quiet_choice(job, t, projection, signals).input;
            &&& input.initialized
            &&& !input.render_config_changed
            &&& !input.hard_fold_requested
            &&& input.boundary_present
            &&& !input.reconcile_pending
            &&& !input.reductions_pending
            &&& input.is_legacy_baseline == legacy_shape(now.core)
            &&& input.valid_m0m1_shape == current_shape(now.core)
            &&& input.m1_revision_changed == (signals.m1_digest != now.meta.m1_revision)
        }),
{
    a_quiet_start(job, t, projection, signals);
    reveal(quiet_choice);
}

} // verus!
