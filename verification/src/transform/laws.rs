//! What holds of every transform pass, whatever the deciders answer.

use vstd::prelude::*;

use crate::rows::{keep_where, of_session, of_session_push, row_of, row_of_put, KeyedModel};
use crate::store::cache::{loaded, next_version, version_found};
use crate::store::drops::without_drops;
use crate::store::errors::{McStoreError, StoreError};
use crate::store::records::{CacheRowModel, PendingAgentDropModel};
use crate::store::revert::{
    a_cut_keeps_the_prefix, behind_cut, cut_conflicts, dropped, recut_meta, surviving, up_to,
};
use crate::store::McStoreModel;
use crate::transform::errors::{MAX_CAS_RETRIES, TransformErrorModel};
use crate::transform::machine::{
    cuts, ends, fails, held, next, settled, takes_injection, takes_rendering, PassEventModel,
    PassJobModel, PassStageModel, RenderingModel, TransformPassModel, TransformWithProjectionModel,
    WorkingModel,
};
use crate::transform::output::{
    blocks_elsewhere, forms_elsewhere, output_grows_at_its_end, output_of, output_reads_two_fields,
};
use crate::transform::pass::{
    action_name, advance_absent_text, answer, committed_meta, consumed, fold_step, pass_changed,
    recut_absent_text, start_fault,
};
use crate::transform::todo::InjectionOutcomeModel;
use crate::transform::types::{
    CkIngressMessageModel, FlatBlockModel, PassPlanModel, ReducedBlockModel,
};
use crate::wire::CkWireMessageModel;

verus! {

// --- the course of a pass -------------------------------------------------------------

/// Whether a stage waits for an answer.
pub open spec fn waits_for(stage: PassStageModel, event: PassEventModel) -> bool {
    match event {
        PassEventModel::Projected(_) => stage is Project,
        PassEventModel::Signals(_) => stage is Signal,
        PassEventModel::Selected(_) => stage is Select,
        PassEventModel::Planned { .. } => stage is Plan,
        PassEventModel::Composed(_) => stage is Compose,
        PassEventModel::Recomposed { .. } => stage is Recompose,
        PassEventModel::DeltaComposed(_) => stage is ComposeDelta,
        PassEventModel::Stepped { .. } => stage is FreezeHistory || stage is FreezeDelta
            || stage is Replay,
        PassEventModel::Injected(_) => stage is Inject,
        PassEventModel::Rendered { .. } => stage is Render,
    }
}

/// How many answers a pass takes in at most from a stage on, unless it starts over.
pub open spec fn answers_left(stage: PassStageModel) -> nat {
    match stage {
        PassStageModel::Project => 9,
        PassStageModel::Signal(_) => 8,
        PassStageModel::Select(_) => 7,
        PassStageModel::Plan(_) => 6,
        PassStageModel::Compose(_) => 5,
        PassStageModel::Recompose(_) => 4,
        PassStageModel::ComposeDelta(_) => 4,
        PassStageModel::FreezeHistory(_) => 3,
        PassStageModel::FreezeDelta(_) => 3,
        PassStageModel::Replay(_) => 3,
        PassStageModel::Inject(_) => 2,
        PassStageModel::Render(_) => 1,
        PassStageModel::Served(_) => 0,
        PassStageModel::Failed(_) => 0,
    }
}

/// An answer that a pass does not wait for changes nothing.
pub proof fn an_unawaited_answer_changes_nothing(
    p: TransformPassModel,
    s: McStoreModel,
    event: PassEventModel,
)
    requires
        !waits_for(p.stage, event),
    ensures
        next(p, s, event) == (p, s),
{
}

/// Whether a pass came nearer to its end, or started over within the bound, with the same
/// request.
pub open spec fn nearer(p: TransformPassModel, q: TransformPassModel) -> bool {
    &&& q.job.attempt <= MAX_CAS_RETRIES
    &&& q.job == (PassJobModel { attempt: q.job.attempt, ..p.job })
    &&& if q.job.attempt == p.job.attempt {
        answers_left(q.stage) < answers_left(p.stage)
    } else {
        q.job.attempt == p.job.attempt + 1 && q.stage is Project
    }
}

proof fn a_failure_is_nearer(p: TransformPassModel, e: TransformErrorModel)
    requires
        p.job.attempt <= MAX_CAS_RETRIES,
        answers_left(p.stage) > 0,
    ensures
        nearer(p, fails(p.job, e)),
{
}

proof fn a_beginning_is_nearer(p: TransformPassModel, s: McStoreModel, event: PassEventModel)
    requires
        waits_for(p.stage, event),
        p.job.attempt <= MAX_CAS_RETRIES,
        event is Projected || event is Signals || event is Selected,
    ensures
        nearer(p, next(p, s, event).0),
{
    match event {
        PassEventModel::Projected(r) => {
            match r {
                Ok(projection) => {
                    if let Some(e) = start_fault(s, p.job.request, projection) {
                        a_failure_is_nearer(p, e);
                    }
                },
                Err(why) => {
                    a_failure_is_nearer(p, TransformErrorModel::CkWire(why));
                },
            }
        },
        _ => {
            a_failure_is_nearer(p, TransformErrorModel::ReductionConflict);
        },
    }
}

proof fn a_plan_is_nearer(p: TransformPassModel, s: McStoreModel, event: PassEventModel)
    requires
        waits_for(p.stage, event),
        p.job.attempt <= MAX_CAS_RETRIES,
        event is Planned,
    ensures
        nearer(p, next(p, s, event).0),
{
    if let PassEventModel::Planned { plan, captured } = event {
        if let PassPlanModel::Reject(why) = plan {
            a_failure_is_nearer(p, TransformErrorModel::UnknownShape(why));
        }
    }
}

proof fn a_cut_is_nearer(p: TransformPassModel, s: McStoreModel, w: WorkingModel)
    requires
        p.stage is Compose,
        p.job.attempt <= MAX_CAS_RETRIES,
    ensures
        nearer(p, cuts(p.job, s, w)),
{
    let session = p.job.request.session_id;
    a_failure_is_nearer(
        p,
        TransformErrorModel::Store(
            McStoreError::CasConflict {
                expected: w.work.expected,
                found: version_found(s, session),
            },
        ),
    );
    a_failure_is_nearer(
        p,
        TransformErrorModel::Store(McStoreError::Store(StoreError::Exhausted)),
    );
}

proof fn a_composition_is_nearer(p: TransformPassModel, s: McStoreModel, event: PassEventModel)
    requires
        waits_for(p.stage, event),
        p.job.attempt <= MAX_CAS_RETRIES,
        event is Composed || event is Recomposed || event is DeltaComposed,
    ensures
        nearer(p, next(p, s, event).0),
{
    match event {
        PassEventModel::Composed(r) => match r {
            Ok(comp) => {
                let w = p.stage->Compose_0.value;
                a_cut_is_nearer(p, s, w);
                if let Err(e) = fold_step(
                    comp,
                    w.start().live,
                    w.start().core.reconcile_pending,
                ) {
                    a_failure_is_nearer(p, e);
                }
            },
            Err(e) => {
                a_failure_is_nearer(p, e);
            },
        },
        PassEventModel::Recomposed { comp, m1_digest } => match comp {
            Ok(comp) => {
                a_failure_is_nearer(
                    p,
                    TransformErrorModel::BoundaryNotPresent(
                        recut_absent_text(p.stage->Recompose_0.value.keep, comp.boundary_id),
                    ),
                );
            },
            Err(e) => {
                a_failure_is_nearer(p, e);
            },
        },
        PassEventModel::DeltaComposed(r) => match r {
            Ok(delta) => {
                a_failure_is_nearer(
                    p,
                    TransformErrorModel::BoundaryNotPresent(
                        advance_absent_text(delta.new_coverage->0.boundary_id),
                    ),
                );
            },
            Err(e) => {
                a_failure_is_nearer(p, e);
            },
        },
        _ => {},
    }
}

proof fn an_injection_is_nearer(p: TransformPassModel, injection: InjectionOutcomeModel)
    requires
        p.stage is Inject,
        p.job.attempt <= MAX_CAS_RETRIES,
    ensures
        nearer(p, takes_injection(p, injection)),
{
    let q = takes_injection(p, injection);
    if q.stage is Render {
        assert(q.job == p.job);
    } else {
        let w = p.stage->Inject_0.value;
        let advanced = settled(p.job, w, injection);
        a_failure_is_nearer(p, advanced->Err_0);
    }
}

proof fn an_end_is_nearer(
    p: TransformPassModel,
    s: McStoreModel,
    w: WorkingModel,
    messages: Seq<CkWireMessageModel>,
)
    requires
        p.stage is Render,
        p.job.attempt <= MAX_CAS_RETRIES,
    ensures
        nearer(p, ends(p.job, s, w, messages).0),
{
    let session = p.job.request.session_id;
    a_failure_is_nearer(
        p,
        TransformErrorModel::Store(
            McStoreError::CasConflict {
                expected: w.work.expected,
                found: version_found(s, session),
            },
        ),
    );
    a_failure_is_nearer(
        p,
        TransformErrorModel::Store(McStoreError::Store(StoreError::Exhausted)),
    );
}

proof fn a_rendering_is_nearer(
    p: TransformPassModel,
    s: McStoreModel,
    reduced: Seq<ReducedBlockModel>,
    strips_reasoning: bool,
)
    requires
        p.stage is Render,
        p.job.attempt <= MAX_CAS_RETRIES,
    ensures
        nearer(p, takes_rendering(p, s, reduced, strips_reasoning).0),
{
    let w = p.stage->Render_0.value.on;
    match output_of(
        w.work.core,
        w.work.meta,
        p.job.request.messages,
        w.projection().blocks,
        reduced,
        strips_reasoning,
    ) {
        Err(e) => {
            a_failure_is_nearer(p, e);
        },
        Ok(messages) => {
            an_end_is_nearer(p, s, w, messages);
        },
    }
}

/// A pass ends: each answer that it waits for brings it nearer to its end or makes it start
/// over, and it starts over at most as often as the bound says. Its request stays the same.
pub proof fn a_pass_ends(p: TransformPassModel, s: McStoreModel, event: PassEventModel)
    requires
        waits_for(p.stage, event),
        p.job.attempt <= MAX_CAS_RETRIES,
    ensures
        nearer(p, next(p, s, event).0),
{
    match event {
        PassEventModel::Projected(_) | PassEventModel::Signals(_) | PassEventModel::Selected(
            _,
        ) => {
            a_beginning_is_nearer(p, s, event);
        },
        PassEventModel::Planned { .. } => {
            a_plan_is_nearer(p, s, event);
        },
        PassEventModel::Composed(_) | PassEventModel::Recomposed { .. }
        | PassEventModel::DeltaComposed(_) => {
            a_composition_is_nearer(p, s, event);
        },
        PassEventModel::Stepped { .. } => {},
        PassEventModel::Injected(injection) => {
            an_injection_is_nearer(p, injection);
        },
        PassEventModel::Rendered { reduced, strips_reasoning } => {
            a_rendering_is_nearer(p, s, reduced, strips_reasoning);
        },
    }
}

// --- what a pass writes ---------------------------------------------------------------

/// Only one answer can write: the shorter blocks, with which the pass ends.
pub proof fn only_one_answer_writes(p: TransformPassModel, s: McStoreModel, event: PassEventModel)
    requires
        event !is Rendered,
    ensures
        next(p, s, event).1 == s,
{
}

proof fn drops_of_others_stay(
    table: Seq<KeyedModel<PendingAgentDropModel>>,
    session: Seq<char>,
    ids: Seq<i64>,
    other: Seq<char>,
)
    requires
        other != session,
    ensures
        of_session(without_drops(table, session, ids), other) == of_session(table, other),
    decreases table.len(),
{
    if table.len() > 0 {
        drops_of_others_stay(table.drop_last(), session, ids, other);
        let rest = without_drops(table.drop_last(), session, ids);
        of_session_push(rest, table.last(), other);
    }
}

/// Whether a store holds of a session the same state, compartments and drops as another.
pub open spec fn same_session(s: McStoreModel, t: McStoreModel, session: Seq<char>) -> bool {
    &&& loaded(s, session) == loaded(t, session)
    &&& of_session(s.compartments, session) == of_session(t.compartments, session)
    &&& of_session(s.drops, session) == of_session(t.drops, session)
}

proof fn a_cut_stays_in_its_session(
    s: McStoreModel,
    own: Seq<char>,
    cut: Option<i64>,
    session: Seq<char>,
)
    requires
        cut is Some ==> row_of(s.cache, own) is Some,
    ensures
        loaded(behind_cut(s, own, cut), session).core == loaded(s, session).core,
        session != own ==> same_session(behind_cut(s, own, cut), s, session),
{
    if let Some(keep) = cut {
        let row = row_of(s.cache, own)->0;
        let meta = recut_meta(row.meta, dropped(s, own, keep), surviving(s, own, keep));
        row_of_put(
            s.cache,
            own,
            CacheRowModel { row_version: next_version(s, own), core: row.core, meta },
            session,
        );
        a_cut_keeps_the_prefix(s.compartments, own, keep, session);
    }
}

proof fn an_end_stays_in_its_session(
    job: PassJobModel,
    s: McStoreModel,
    w: WorkingModel,
    messages: Seq<CkWireMessageModel>,
    session: Seq<char>,
)
    ensures
        session != job.request.session_id ==> same_session(
            ends(job, s, w, messages).1,
            s,
            session,
        ),
{
    let own = job.request.session_id;
    if session != own && !cut_conflicts(s, own, w.work.expected, w.work.cut) {
        let t = behind_cut(s, own, w.work.cut);
        a_cut_stays_in_its_session(s, own, w.work.cut, session);
        row_of_put(
            t.cache,
            own,
            CacheRowModel {
                row_version: next_version(t, own),
                core: w.work.core,
                meta: committed_meta(w.work, job.now_ms),
            },
            session,
        );
        drops_of_others_stay(t.drops, own, consumed(w.start(), w.gate(), w.plan), session);
    }
}

proof fn an_end_writes_where_it_serves(
    job: PassJobModel,
    s: McStoreModel,
    w: WorkingModel,
    messages: Seq<CkWireMessageModel>,
)
    ensures
        ends(job, s, w, messages).0.stage !is Served ==> ends(job, s, w, messages).1 == s,
{
}

/// An answer that does not serve the pass writes nothing: a pass that fails at it, starts over
/// or goes on leaves the whole store as it was.
pub proof fn an_unserved_answer_writes_nothing(
    p: TransformPassModel,
    s: McStoreModel,
    event: PassEventModel,
)
    requires
        next(p, s, event).0.stage !is Served,
    ensures
        next(p, s, event).1 == s,
{
    match event {
        PassEventModel::Rendered { reduced, strips_reasoning } => {
            if p.stage is Render {
                let w = p.stage->Render_0.value.on;
                if let Ok(messages) = output_of(
                    w.work.core,
                    w.work.meta,
                    p.job.request.messages,
                    w.projection().blocks,
                    reduced,
                    strips_reasoning,
                ) {
                    an_end_writes_where_it_serves(p.job, s, w, messages);
                }
            }
        },
        _ => {
            only_one_answer_writes(p, s, event);
        },
    }
}

/// A pass writes nothing of another session.
pub proof fn other_sessions_stay(
    p: TransformPassModel,
    s: McStoreModel,
    event: PassEventModel,
    other: Seq<char>,
)
    requires
        other != p.job.request.session_id,
    ensures
        same_session(next(p, s, event).1, s, other),
{
    match event {
        PassEventModel::Rendered { reduced, strips_reasoning } => {
            if p.stage is Render {
                let w = p.stage->Render_0.value.on;
                if let Ok(messages) = output_of(
                    w.work.core,
                    w.work.meta,
                    p.job.request.messages,
                    w.projection().blocks,
                    reduced,
                    strips_reasoning,
                ) {
                    an_end_stays_in_its_session(p.job, s, w, messages, other);
                }
            }
        },
        _ => {
            only_one_answer_writes(p, s, event);
        },
    }
}

/// A pass whose output cannot be assembled writes nothing.
pub proof fn no_output_means_no_commit(
    p: TransformPassModel,
    s: McStoreModel,
    reduced: Seq<ReducedBlockModel>,
    strips_reasoning: bool,
    x: RenderingModel,
)
    requires
        p.stage == PassStageModel::Render(held(x)),
        output_of(
            x.on.work.core,
            x.on.work.meta,
            p.job.request.messages,
            x.on.projection().blocks,
            reduced,
            strips_reasoning,
        ) is Err,
    ensures
        takes_rendering(p, s, reduced, strips_reasoning).1 == s,
        takes_rendering(p, s, reduced, strips_reasoning).0.stage !is Served,
{
}

/// A pass that is served answers with the state that the store holds afterwards. Where the
/// pass changed nothing, nothing was written, and the answer says so.
pub proof fn a_served_pass_is_stored(
    p: TransformPassModel,
    s: McStoreModel,
    reduced: Seq<ReducedBlockModel>,
    strips_reasoning: bool,
    x: RenderingModel,
    done: TransformWithProjectionModel,
)
    requires
        p.stage == PassStageModel::Render(held(x)),
        takes_rendering(p, s, reduced, strips_reasoning).0.stage == PassStageModel::Served(
            held(done),
        ),
    ensures
        ({
            let t = takes_rendering(p, s, reduced, strips_reasoning).1;
            let now = loaded(t, p.job.request.session_id);
            let response = done.response;
            &&& response.committed == pass_changed(x.on.work, x.on.start())
            &&& response.action == action_name(x.on.plan)
            &&& response.full_array_fingerprint == p.job.request.full_array_fingerprint
            &&& output_of(
                x.on.work.core,
                x.on.work.meta,
                p.job.request.messages,
                x.on.projection().blocks,
                reduced,
                strips_reasoning,
            ) == Ok::<Seq<CkWireMessageModel>, TransformErrorModel>(response.ck_messages->0)
            &&& if response.committed {
                &&& now.row_version == Some(response.row_version)
                &&& now.core == x.on.work.core
                &&& now.core.boundary_id == response.boundary_id
                &&& now.core.version == response.version
                &&& now.meta.coverage_ordinal == response.coverage_ordinal
                &&& now.meta == committed_meta(x.on.work, p.job.now_ms)
            } else {
                t == s
            }
        }),
{
    reveal(answer);
    reveal(committed_meta);
    let w = x.on;
    let own = p.job.request.session_id;
    let t = behind_cut(s, own, w.work.cut);
    row_of_put(
        t.cache,
        own,
        CacheRowModel {
            row_version: next_version(t, own),
            core: w.work.core,
            meta: committed_meta(w.work, p.job.now_ms),
        },
        own,
    );
}

/// A cut that waits is written where the pass is served: the compartments behind it are gone,
/// and the row has gone on by two versions, one for the cut and one for the commit.
pub proof fn a_served_cut_is_written(
    p: TransformPassModel,
    s: McStoreModel,
    reduced: Seq<ReducedBlockModel>,
    strips_reasoning: bool,
    x: RenderingModel,
    done: TransformWithProjectionModel,
    keep: i64,
)
    requires
        p.stage == PassStageModel::Render(held(x)),
        takes_rendering(p, s, reduced, strips_reasoning).0.stage == PassStageModel::Served(
            held(done),
        ),
        x.on.work.cut == Some(keep),
        dropped(s, p.job.request.session_id, keep).len() > 0,
    ensures
        ({
            let session = p.job.request.session_id;
            let t = takes_rendering(p, s, reduced, strips_reasoning).1;
            &&& done.response.committed
            &&& done.response.row_version == version_found(s, session) + 2
            &&& loaded(t, session).row_version == Some(done.response.row_version)
            &&& of_session(t.compartments, session) == keep_where(
                of_session(s.compartments, session),
                up_to(keep),
            )
        }),
{
    reveal(answer);
    let session = p.job.request.session_id;
    let row = row_of(s.cache, session)->0;
    let meta = recut_meta(row.meta, dropped(s, session, keep), surviving(s, session, keep));
    a_served_pass_is_stored(p, s, reduced, strips_reasoning, x, done);
    a_cut_keeps_the_prefix(s.compartments, session, keep, session);
    row_of_put(
        s.cache,
        session,
        CacheRowModel { row_version: next_version(s, session), core: row.core, meta },
        session,
    );
}

/// A replay extends what went out: where a pass is served behind another with the same
/// frozen units, coverage and todo pair, and the conversation only grew, with blocks and
/// shorter forms of its own, its answer begins with the answer before.
pub proof fn a_replay_extends_the_answer(
    p: TransformPassModel,
    s: McStoreModel,
    reduced: Seq<ReducedBlockModel>,
    x: RenderingModel,
    done: TransformWithProjectionModel,
    q: TransformPassModel,
    t: McStoreModel,
    more_reduced: Seq<ReducedBlockModel>,
    y: RenderingModel,
    again: TransformWithProjectionModel,
    more: Seq<CkIngressMessageModel>,
    more_blocks: Seq<FlatBlockModel>,
    strips_reasoning: bool,
)
    requires
        p.stage == PassStageModel::Render(held(x)),
        takes_rendering(p, s, reduced, strips_reasoning).0.stage == PassStageModel::Served(
            held(done),
        ),
        q.stage == PassStageModel::Render(held(y)),
        takes_rendering(q, t, reduced + more_reduced, strips_reasoning).0.stage
            == PassStageModel::Served(held(again)),
        y.on.work.core == x.on.work.core,
        y.on.work.meta.coverage_ordinal == x.on.work.meta.coverage_ordinal,
        y.on.work.meta.synthetic_todo == x.on.work.meta.synthetic_todo,
        q.job.request.messages == p.job.request.messages + more,
        y.on.projection().blocks == x.on.projection().blocks + more_blocks,
        blocks_elsewhere(more_blocks, p.job.request.messages),
        forms_elsewhere(more_reduced, x.on.projection().blocks),
    ensures
        done.response.ck_messages->0.is_prefix_of(again.response.ck_messages->0),
{
    a_served_pass_is_stored(p, s, reduced, strips_reasoning, x, done);
    a_served_pass_is_stored(q, t, reduced + more_reduced, strips_reasoning, y, again);
    output_grows_at_its_end(
        x.on.work.core,
        x.on.work.meta,
        p.job.request.messages,
        more,
        x.on.projection().blocks,
        more_blocks,
        reduced,
        more_reduced,
        strips_reasoning,
    );
    output_reads_two_fields(
        x.on.work.core,
        x.on.work.meta,
        y.on.work.meta,
        q.job.request.messages,
        y.on.projection().blocks,
        reduced + more_reduced,
        strips_reasoning,
    );
}

} // verus!
