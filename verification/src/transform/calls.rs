//! What holds of a call that is repeated: where nothing is due, it answers the same and writes
//! nothing.

use vstd::prelude::*;

use crate::rows::{find_where, keep_where};
use crate::store::cache::{loaded, version_found};
use crate::store::revert::behind_cut;
use crate::store::workspace::membership_of;
use crate::store::McStoreModel;
use crate::transform::driving::{
    answered, answers_in_all, asked, call, classifies, driven, ended, history_of, keep_their_word,
    keeps_the_pair, planned, replays, replays_where_nothing_is_due, shortened, signals_for,
    written_by_a_pass, DecidersModel,
};
use crate::transform::errors::{MAX_CAS_RETRIES, TransformErrorModel};
use crate::transform::ingress::{current_shape, legacy_shape, vanished};
use crate::transform::intake::mids_differ;
use crate::transform::led::{calm, chose, counted, led, served_last};
use crate::transform::machine::{
    at, ends, held, takes_rendering, ChosenModel, PassEventModel, PassJobModel, PassSignalsModel,
    PassStageModel, RenderingModel, TransformPassModel, TransformWithProjectionModel, WorkingModel,
};
use crate::transform::output::{output_of, reductions_to_render};
use crate::transform::pass::{busts, classified, holds_boundary, pass_changed, started};
use crate::transform::reductions::{frozen_targets, live_block};
use crate::transform::repeats::{
    a_quiet_answer, a_quiet_choice, a_quiet_input, a_quiet_replay, a_served_core,
    behind_a_deferred_pass, leads, nothing_due, quiet_choice, quiet_end, quiet_replay,
    quiet_till_the_end, quiet_till_the_plan, quiet_till_the_rendering, quiet_till_the_todo,
    quiet_work, served_as_worked,
};
use crate::transform::stages::{folds, sound};
use crate::transform::types::{
    FlatProjectionModel, PassDecision, PassPlanModel, ReducedBlockModel, TransformRequestModel,
};
use crate::wire::CkWireMessageModel;

verus! {

// --- a call that is repeated ---------------------------------------------------------------

proof fn what_an_end_writes(
    job: PassJobModel,
    s: McStoreModel,
    w: WorkingModel,
    messages: Seq<CkWireMessageModel>,
)
    requires
        ends(job, s, w, messages).0.stage is Served,
    ensures
        ({
            let t = ends(job, s, w, messages).1;
            let session = job.request.session_id;
            &&& written_by_a_pass(s, t)
            &&& t.compartments == behind_cut(s, session, w.work.cut).compartments
        }),
{
    let session = job.request.session_id;
    what_a_cut_writes(s, session, w.work.cut);
    if !pass_changed(w.work, w.start()) {
        assert(w.work.cut is None);
    }
}

proof fn what_a_cut_writes(s: McStoreModel, session: Seq<char>, cut: Option<i64>)
    ensures
        written_by_a_pass(s, behind_cut(s, session, cut)),
{
}

proof fn what_a_rendering_writes(
    p: TransformPassModel,
    s: McStoreModel,
    x: RenderingModel,
    reduced: Seq<ReducedBlockModel>,
    strips_reasoning: bool,
)
    requires
        p.stage == PassStageModel::Render(held(x)),
        takes_rendering(p, s, reduced, strips_reasoning).0.stage is Served,
    ensures
        ({
            let t = takes_rendering(p, s, reduced, strips_reasoning).1;
            let session = p.job.request.session_id;
            &&& written_by_a_pass(s, t)
            &&& t.compartments == behind_cut(s, session, x.on.work.cut).compartments
        }),
{
    let output = output_of(
        x.on.work.core,
        x.on.work.meta,
        p.job.request.messages,
        x.on.projection().blocks,
        reduced,
        strips_reasoning,
    );
    what_an_end_writes(p.job, s, x.on, output->Ok_0);
}

/// The workspace of a project is not written by a pass.
proof fn the_workspace_stays(
    s: McStoreModel,
    t: McStoreModel,
    request: TransformRequestModel,
    projection: FlatProjectionModel,
    project: Seq<char>,
)
    requires
        written_by_a_pass(s, t),
    ensures
        started(t, request, projection, project).workspace_fingerprint == started(
            s,
            request,
            projection,
            project,
        ).workspace_fingerprint,
{
    reveal(started);
    assert(t.workspaces == s.workspaces);
    assert(t.members == s.members);
    assert(membership_of(t, project) == membership_of(s, project));
}

/// What a pass began with shows in what decided its plan.
proof fn a_choice_weighs_its_start(
    d: DecidersModel,
    request: TransformRequestModel,
    project: Seq<char>,
    s: McStoreModel,
    c: ChosenModel,
)
    requires
        chose(d, request, project, s, c),
    ensures
        ({
            let start = c.gated.begun.start;
            let live = keep_where(c.gated.begun.projection.blocks, live_block());
            &&& c.input.boundary_present == holds_boundary(live, start.core.boundary_id)
            &&& c.input.m1_revision_changed == ((d.digest)(
                s,
                project,
                history_of(s, request.session_id),
            ) != start.meta.m1_revision)
        }),
{
    reveal(chose);
    reveal(classified);
    reveal(started);
}

/// The digest that a repeated call reads is the one that is kept.
proof fn the_digest_is_kept(
    d: DecidersModel,
    p: TransformPassModel,
    s: McStoreModel,
    x: RenderingModel,
    t: McStoreModel,
)
    requires
        keep_their_word(d),
        led(d, p, s),
        p.stage == PassStageModel::Render(held(x)),
        written_by_a_pass(s, t),
        t.compartments == behind_cut(s, p.job.request.session_id, x.on.work.cut).compartments,
        x.on.plan is Defer ==> holds_boundary(
            keep_where(x.on.projection().blocks, live_block()),
            x.on.work.core.boundary_id,
        ),
    ensures
        ({
            let digest = (d.digest)(
                t,
                p.job.project_path,
                history_of(t, p.job.request.session_id),
            );
            if x.on.plan is Defer {
                digest == x.on.work.meta.m1_revision
            } else {
                busts(x.on.plan) && digest == x.on.work.m1_digest
            }
        }),
{
    let request = p.job.request;
    let project = p.job.project_path;
    let session = request.session_id;
    let history = history_of(t, session);
    assert(history == history_of(behind_cut(s, session, x.on.work.cut), session));
    assert((d.digest)(t, project, history) == (d.digest)(s, project, history));
    assert(x.on.work.m1_digest == (d.digest)(s, project, history) && x.on.plan !is Reject) by {
        reveal(led);
        reveal(counted);
    }
    if x.on.plan is Defer {
        let c = x.on.chosen;
        assert(chose(d, request, project, s, c) && calm(x.on) && x.on.plan == planned(d, c.input))
            by {
            reveal(led);
        }
        a_choice_weighs_its_start(d, request, project, s, c);
        assert(classifies(c.input, planned(d, c.input)));
        reveal(calm);
    }
}

/// Whether a stage renders neither the history nor a delta.
pub open spec fn renders_nothing(stage: PassStageModel) -> bool {
    stage !is Compose && stage !is Recompose && stage !is ComposeDelta
}

proof fn one_question(
    d: DecidersModel,
    p: TransformPassModel,
    t: McStoreModel,
    n: nat,
    q: TransformPassModel,
    event: PassEventModel,
    r: (TransformPassModel, McStoreModel),
)
    requires
        driven(d, p, t, n) == (q, t),
        !ended(q),
        asked(d, q, t) == event,
        leads(q, t, event, r),
    ensures
        driven(d, p, t, n + 1) == r,
{
    reveal(answered);
    reveal(leads);
}

proof fn ended_stays(d: DecidersModel, p: TransformPassModel, s: McStoreModel, k: nat, n: nat)
    requires
        k <= n,
        ended(driven(d, p, s, k).0),
    ensures
        driven(d, p, s, n) == driven(d, p, s, k),
    decreases n,
{
    if k < n {
        ended_stays(d, p, s, k, (n - 1) as nat);
    }
}

/// A call in which nothing is due asks for its plan, and is told to replay.
proof fn quiet_questions(
    d: DecidersModel,
    job: PassJobModel,
    t: McStoreModel,
    projection: FlatProjectionModel,
    signals: PassSignalsModel,
    captured: Option<Seq<char>>,
)
    requires
        (d.project)(job.request.messages) == Ok::<FlatProjectionModel, Seq<char>>(projection),
        nothing_due(job, t, projection, signals),
        signals == signals_for(
            d,
            job.request,
            job.project_path,
            t,
            started(t, job.request, projection, job.project_path),
        ),
        ({
            let chosen = quiet_choice(job, t, projection, signals);
            &&& planned(d, chosen.input) is Defer
            &&& captured == (d.capture)(
                chosen.gated.gate.tail,
                chosen.gated.begun.start.meta.last_todo_state,
            )
        }),
    ensures
        ({
            let p = at(job, PassStageModel::Project);
            let chosen = quiet_choice(job, t, projection, signals);
            let one = at(job, PassStageModel::Signal(held(chosen.gated.begun)));
            let two = at(job, PassStageModel::Plan(held(chosen)));
            let three = quiet_replay(job, t, projection, signals, captured);
            &&& driven(d, p, t, 1) == (one, t)
            &&& driven(d, p, t, 2) == (two, t)
            &&& driven(d, p, t, 3) == (three, t)
        }),
{
    let p = at(job, PassStageModel::Project);
    let chosen = quiet_choice(job, t, projection, signals);
    let one = at(job, PassStageModel::Signal(held(chosen.gated.begun)));
    let two = at(job, PassStageModel::Plan(held(chosen)));
    let three = quiet_replay(job, t, projection, signals, captured);
    a_quiet_choice(job, t, projection, signals);
    quiet_till_the_plan(job, t, projection, signals, captured);
    assert(driven(d, p, t, 0) == (p, t));
    one_question(d, p, t, 0, p, PassEventModel::Projected(Ok(projection)), (one, t));
    one_question(d, p, t, 1, one, PassEventModel::Signals(signals), (two, t));
    one_question(
        d,
        p,
        t,
        2,
        two,
        PassEventModel::Planned { plan: PassPlanModel::Defer, captured },
        (three, t),
    );
}

proof fn a_quiet_step_is_asked(
    d: DecidersModel,
    job: PassJobModel,
    t: McStoreModel,
    projection: FlatProjectionModel,
    signals: PassSignalsModel,
    captured: Option<Seq<char>>,
)
    requires
        replays(d),
        nothing_due(job, t, projection, signals),
    ensures
        ({
            let three = quiet_replay(job, t, projection, signals, captured);
            let core = loaded(t, job.request.session_id).core;
            &&& three.stage is Replay
            &&& asked(d, three, t) == (PassEventModel::Stepped { core, recaptured: None })
        }),
{
    a_quiet_replay(job, t, projection, signals, captured);
}

proof fn a_quiet_pair_is_asked(
    d: DecidersModel,
    job: PassJobModel,
    t: McStoreModel,
    projection: FlatProjectionModel,
    signals: PassSignalsModel,
)
    requires
        keeps_the_pair(d),
    ensures
        ({
            let w = quiet_work(job, t, projection, signals);
            let injection = (d.inject)(w.work.meta, false);
            &&& asked(d, at(job, PassStageModel::Inject(held(w))), t) == PassEventModel::Injected(
                injection,
            )
            &&& injection is Nothing || injection is Keep
        }),
{
    reveal(quiet_work);
}

/// It replays, and keeps the todo pair.
proof fn quiet_steps(
    d: DecidersModel,
    job: PassJobModel,
    t: McStoreModel,
    projection: FlatProjectionModel,
    signals: PassSignalsModel,
    captured: Option<Seq<char>>,
)
    requires
        replays(d),
        keeps_the_pair(d),
        nothing_due(job, t, projection, signals),
        driven(d, at(job, PassStageModel::Project), t, 3) == (
            quiet_replay(job, t, projection, signals, captured),
            t,
        ),
    ensures
        ({
            let p = at(job, PassStageModel::Project);
            let core = loaded(t, job.request.session_id).core;
            let w = quiet_work(job, t, projection, signals);
            let x = RenderingModel { on: w, wanted: reductions_to_render(core, projection.blocks) };
            &&& driven(d, p, t, 3).0.stage is Replay
            &&& driven(d, p, t, 4) == (at(job, PassStageModel::Inject(held(w))), t)
            &&& driven(d, p, t, 5) == (at(job, PassStageModel::Render(held(x))), t)
        }),
{
    let p = at(job, PassStageModel::Project);
    let core = loaded(t, job.request.session_id).core;
    let w = quiet_work(job, t, projection, signals);
    let x = RenderingModel { on: w, wanted: reductions_to_render(core, projection.blocks) };
    let three = quiet_replay(job, t, projection, signals, captured);
    let four = at(job, PassStageModel::Inject(held(w)));
    let five = at(job, PassStageModel::Render(held(x)));
    let injection = (d.inject)(w.work.meta, false);
    a_quiet_step_is_asked(d, job, t, projection, signals, captured);
    a_quiet_pair_is_asked(d, job, t, projection, signals);
    quiet_till_the_todo(job, t, projection, signals, captured, None);
    quiet_till_the_rendering(job, t, projection, signals, injection);
    one_question(
        d,
        p,
        t,
        3,
        three,
        PassEventModel::Stepped { core, recaptured: None },
        (four, t),
    );
    one_question(d, p, t, 4, four, PassEventModel::Injected(injection), (five, t));
}

/// Whether a call in which nothing is due has its answers: the deciders read the same
/// conversation, no delta is due, what is frozen has a known shape, and the output can be
/// assembled.
#[verifier::opaque]
spec fn quietly_answered(
    d: DecidersModel,
    job: PassJobModel,
    t: McStoreModel,
    projection: FlatProjectionModel,
    signals: PassSignalsModel,
    messages: Seq<CkWireMessageModel>,
) -> bool {
    let now = loaded(t, job.request.session_id);
    &&& (d.project)(job.request.messages) == Ok::<FlatProjectionModel, Seq<char>>(projection)
    &&& signals == signals_for(
        d,
        job.request,
        job.project_path,
        t,
        started(t, job.request, projection, job.project_path),
    )
    &&& signals.m1_digest == now.meta.m1_revision
    &&& current_shape(now.core)
    &&& !legacy_shape(now.core)
    &&& output_of(
        now.core,
        now.meta,
        job.request.messages,
        projection.blocks,
        shortened(d, reductions_to_render(now.core, projection.blocks)),
        (d.strips)(job.request.serializer_profile),
    ) == Ok::<Seq<CkWireMessageModel>, TransformErrorModel>(messages)
}

proof fn a_quiet_plan_is_to_replay(
    d: DecidersModel,
    job: PassJobModel,
    t: McStoreModel,
    projection: FlatProjectionModel,
    signals: PassSignalsModel,
    messages: Seq<CkWireMessageModel>,
)
    requires
        replays_where_nothing_is_due(d),
        nothing_due(job, t, projection, signals),
        quietly_answered(d, job, t, projection, signals, messages),
    ensures
        planned(d, quiet_choice(job, t, projection, signals).input) is Defer,
{
    let input = quiet_choice(job, t, projection, signals).input;
    a_quiet_input(job, t, projection, signals);
    reveal(quietly_answered);
    assert(classifies(input, planned(d, input)));
}

/// It ends with the shorter blocks.
proof fn a_quiet_last_question(
    d: DecidersModel,
    job: PassJobModel,
    t: McStoreModel,
    projection: FlatProjectionModel,
    signals: PassSignalsModel,
    messages: Seq<CkWireMessageModel>,
)
    requires
        quietly_answered(d, job, t, projection, signals, messages),
        ({
            let core = loaded(t, job.request.session_id).core;
            let w = quiet_work(job, t, projection, signals);
            let x = RenderingModel { on: w, wanted: reductions_to_render(core, projection.blocks) };
            driven(d, at(job, PassStageModel::Project), t, 5) == (
                at(job, PassStageModel::Render(held(x))),
                t,
            )
        }),
    ensures
        driven(d, at(job, PassStageModel::Project), t, 6) == quiet_end(
            job,
            t,
            projection,
            signals,
            messages,
        ),
{
    reveal(quietly_answered);
    let p = at(job, PassStageModel::Project);
    let core = loaded(t, job.request.session_id).core;
    let w = quiet_work(job, t, projection, signals);
    let x = RenderingModel { on: w, wanted: reductions_to_render(core, projection.blocks) };
    let five = at(job, PassStageModel::Render(held(x)));
    let reduced = shortened(d, x.wanted);
    let strips_reasoning = (d.strips)(job.request.serializer_profile);
    quiet_till_the_end(job, t, projection, signals, reduced, strips_reasoning, messages);
    one_question(
        d,
        p,
        t,
        5,
        five,
        PassEventModel::Rendered { reduced, strips_reasoning },
        quiet_end(job, t, projection, signals, messages),
    );
}

proof fn six_questions(d: DecidersModel, p: TransformPassModel, t: McStoreModel, n: nat)
    requires
        p.stage is Project,
        driven(d, p, t, 1).0.stage is Signal,
        driven(d, p, t, 2).0.stage is Plan,
        driven(d, p, t, 3).0.stage is Replay,
        driven(d, p, t, 4).0.stage is Inject,
        driven(d, p, t, 5).0.stage is Render,
        ended(driven(d, p, t, 6).0),
    ensures
        renders_nothing(driven(d, p, t, n).0.stage),
        n >= 6 ==> driven(d, p, t, n) == driven(d, p, t, 6),
{
    if n >= 6 {
        ended_stays(d, p, t, 6, n);
    } else {
        assert(n == 0 || n == 1 || n == 2 || n == 3 || n == 4 || n == 5);
    }
}

/// A call in which nothing is due: it replays.
proof fn a_quiet_call(
    d: DecidersModel,
    job: PassJobModel,
    t: McStoreModel,
    projection: FlatProjectionModel,
    signals: PassSignalsModel,
    messages: Seq<CkWireMessageModel>,
)
    requires
        keep_their_word(d),
        nothing_due(job, t, projection, signals),
        quietly_answered(d, job, t, projection, signals, messages),
    ensures
        call(d, job, t) == quiet_end(job, t, projection, signals, messages),
        forall|n: nat|
            renders_nothing(
                (#[trigger] driven(d, at(job, PassStageModel::Project), t, n)).0.stage,
            ),
{
    let p = at(job, PassStageModel::Project);
    let chosen = quiet_choice(job, t, projection, signals);
    let captured = (d.capture)(
        chosen.gated.gate.tail,
        chosen.gated.begun.start.meta.last_todo_state,
    );
    a_quiet_plan_is_to_replay(d, job, t, projection, signals, messages);
    assert((d.project)(job.request.messages) == Ok::<FlatProjectionModel, Seq<char>>(projection)
        && signals == signals_for(
        d,
        job.request,
        job.project_path,
        t,
        started(t, job.request, projection, job.project_path),
    )) by {
        reveal(quietly_answered);
    }
    quiet_questions(d, job, t, projection, signals, captured);
    quiet_steps(d, job, t, projection, signals, captured);
    a_quiet_last_question(d, job, t, projection, signals, messages);
    assert(ended(driven(d, p, t, 6).0)) by {
        a_quiet_answer(job, t, projection, signals, messages);
    }
    six_questions(d, p, t, answers_in_all());
    assert forall|n: nat| renders_nothing((#[trigger] driven(d, p, t, n)).0.stage) by {
        six_questions(d, p, t, n);
    }
}

/// What a served call whose scheduler deferred leaves: nothing is due for the same call.
proof fn behind_a_deferred_call(
    d: DecidersModel,
    q: TransformPassModel,
    s: McStoreModel,
    x: RenderingModel,
    t: McStoreModel,
    done: TransformWithProjectionModel,
    job: PassJobModel,
    signals: PassSignalsModel,
)
    requires
        keep_their_word(d),
        sound(q, s),
        led(d, q, s),
        q.stage == PassStageModel::Render(held(x)),
        q.job == (PassJobModel { attempt: q.job.attempt, ..job }),
        ({
            let reduced = shortened(d, x.wanted);
            let strips = (d.strips)(job.request.serializer_profile);
            let first = started(s, job.request, done.projection, job.project_path);
            let again = started(t, job.request, done.projection, job.project_path);
            let now = loaded(t, job.request.session_id);
            &&& takes_rendering(q, s, reduced, strips) == (
                at(q.job, PassStageModel::Served(held(done))),
                t,
            )
            &&& signals == signals_for(d, job.request, job.project_path, t, again)
            &&& signals.outcome == (d.schedule)(job.request, first)
            &&& !signals.outcome.idle_ttl_fired
            &&& current_shape(now.core)
            &&& !legacy_shape(now.core)
            &&& find_where(frozen_targets(now.core.frozen_units), vanished(done.projection))
                is None
        }),
        mids_differ(done.projection.identity_by_mid),
        done.scheduler_pass == PassDecision::Defer,
        !done.response.reconcile_pending,
        holds_boundary(
            keep_where(done.projection.blocks, live_block()),
            done.response.boundary_id,
        ),
    ensures
        ({
            let now = loaded(t, job.request.session_id);
            &&& nothing_due(job, t, done.projection, signals)
            &&& quietly_answered(
                d,
                job,
                t,
                done.projection,
                signals,
                done.response.ck_messages->0,
            )
            &&& version_found(t, job.request.session_id) == done.response.row_version
            &&& done.response.ck_messages is Some
            &&& now.core.boundary_id == done.response.boundary_id
            &&& !now.core.reconcile_pending
            &&& now.meta.coverage_ordinal == done.response.coverage_ordinal
        }),
{
    let now = loaded(t, job.request.session_id);
    let reduced = shortened(d, x.wanted);
    let strips = (d.strips)(job.request.serializer_profile);
    a_served_choice(d, q, s, x, reduced, strips, done);
    what_a_rendering_writes(q, s, x, reduced, strips);
    the_workspace_stays(s, t, job.request, done.projection, job.project_path);
    behind_a_deferred_pass(q, s, x, reduced, strips, done, job, signals);
    the_digest_is_kept(d, q, s, x, t);
    a_served_core(q, s, reduced, strips, x, done);
    reveal(quietly_answered);
}

/// A deferred call can be repeated. Where a call was served, the scheduler deferred, the
/// session waits for no reconciliation and the conversation holds its boundary, the same call
/// once more is served with the same messages, the same version and the action of a replay. It
/// renders neither the history nor a delta on the way, and writes nothing.
///
/// It is given that the deciders keep their word, and that the scheduler, asked again,
/// decides as it did; that the conversation has each message once; and that what is frozen
/// has a known shape and names no block that the conversation lost.
pub proof fn a_deferred_call_repeats(
    d: DecidersModel,
    job: PassJobModel,
    s: McStoreModel,
    done: TransformWithProjectionModel,
)
    requires
        job.attempt <= MAX_CAS_RETRIES,
        keep_their_word(d),
        ({
            let (q, t) = call(d, job, s);
            let now = loaded(t, job.request.session_id);
            let first = started(s, job.request, done.projection, job.project_path);
            let again = started(t, job.request, done.projection, job.project_path);
            &&& q.stage == PassStageModel::Served(held(done))
            &&& (d.schedule)(job.request, again) == (d.schedule)(job.request, first)
            &&& !(d.schedule)(job.request, again).idle_ttl_fired
            &&& current_shape(now.core)
            &&& !legacy_shape(now.core)
            &&& find_where(frozen_targets(now.core.frozen_units), vanished(done.projection))
                is None
        }),
        mids_differ(done.projection.identity_by_mid),
        done.scheduler_pass == PassDecision::Defer,
        !done.response.reconcile_pending,
        holds_boundary(
            keep_where(done.projection.blocks, live_block()),
            done.response.boundary_id,
        ),
    ensures
        ({
            let t = call(d, job, s).1;
            let (q, after) = call(d, job, t);
            &&& q.stage matches PassStageModel::Served(repeated)
            &&& repeated.value.response.action == "SOFT+"@
            &&& !repeated.value.response.committed
            &&& repeated.value.response.row_version == done.response.row_version
            &&& repeated.value.response.ck_messages == done.response.ck_messages
            &&& repeated.value.response.boundary_id == done.response.boundary_id
            &&& !repeated.value.response.reconcile_pending
            &&& repeated.value.response.coverage_ordinal == done.response.coverage_ordinal
            &&& repeated.value.scheduler_pass == PassDecision::Defer
            &&& after == t
            &&& forall|n: nat|
                renders_nothing(
                    (#[trigger] driven(d, at(job, PassStageModel::Project), t, n)).0.stage,
                )
        }),
{
    let p = at(job, PassStageModel::Project);
    let t = call(d, job, s).1;
    let q = served_last(d, p, s, answers_in_all());
    let x = q.stage->Render_0.value;
    let messages = done.response.ck_messages->0;
    let again = started(t, job.request, done.projection, job.project_path);
    let signals = signals_for(d, job.request, job.project_path, t, again);
    assert(q.stage == PassStageModel::Render(held(x)));
    the_last_question(d, q, s, x);
    assert(answered(d, q, s).0 == at(q.job, PassStageModel::Served(held(done))));
    behind_a_deferred_call(d, q, s, x, t, done, job, signals);
    a_quiet_call(d, job, t, done.projection, signals, messages);
    a_quiet_answer(job, t, done.projection, signals, messages);
}

proof fn a_served_end_keeps_its_job(
    job: PassJobModel,
    s: McStoreModel,
    w: WorkingModel,
    messages: Seq<CkWireMessageModel>,
)
    requires
        ends(job, s, w, messages).0.stage is Served,
    ensures
        ends(job, s, w, messages).0.job == job,
{
}

/// What a pass that is served was asked last.
proof fn the_last_question(
    d: DecidersModel,
    p: TransformPassModel,
    s: McStoreModel,
    x: RenderingModel,
)
    requires
        p.stage == PassStageModel::Render(held(x)),
    ensures
        ({
            let reduced = shortened(d, x.wanted);
            let strips = (d.strips)(p.job.request.serializer_profile);
            let r = answered(d, p, s);
            &&& r == takes_rendering(p, s, reduced, strips)
            &&& r.0.stage is Served ==> r.0.job == p.job
        }),
{
    reveal(answered);
    let reduced = shortened(d, x.wanted);
    let strips = (d.strips)(p.job.request.serializer_profile);
    if let Ok(messages) = output_of(
        x.on.work.core,
        x.on.work.meta,
        p.job.request.messages,
        x.on.projection().blocks,
        reduced,
        strips,
    ) {
        if ends(p.job, s, x.on, messages).0.stage is Served {
            a_served_end_keeps_its_job(p.job, s, x.on, messages);
        }
    }
}

/// What a served call says of the choice behind it.
proof fn a_served_choice(
    d: DecidersModel,
    p: TransformPassModel,
    s: McStoreModel,
    x: RenderingModel,
    reduced: Seq<ReducedBlockModel>,
    strips_reasoning: bool,
    done: TransformWithProjectionModel,
)
    requires
        keep_their_word(d),
        led(d, p, s),
        p.stage == PassStageModel::Render(held(x)),
        takes_rendering(p, s, reduced, strips_reasoning).0.stage == PassStageModel::Served(
            held(done),
        ),
    ensures
        ({
            let first = started(s, p.job.request, done.projection, p.job.project_path);
            &&& done.projection == x.on.projection()
            &&& (d.project)(p.job.request.messages) == Ok::<FlatProjectionModel, Seq<char>>(
                done.projection,
            )
            &&& x.on.signals() == signals_for(d, p.job.request, p.job.project_path, s, first)
            &&& done.response.boundary_id == x.on.work.core.boundary_id
            &&& x.wanted == reductions_to_render(x.on.work.core, done.projection.blocks)
            &&& folds(x.on.plan) || (x.on.chosen.input.initialized
                && !x.on.chosen.input.render_config_changed)
        }),
{
    served_as_worked(p, s, reduced, strips_reasoning, x, done);
    reveal(led);
    reveal(chose);
    let input = x.on.chosen.input;
    assert(classifies(input, planned(d, input)));
}

} // verus!
