//! Where each answer leads a pass, and what it leaves of the store.

use vstd::prelude::*;

use crate::meta::CoreStateModel;
use crate::rows::{keep_where, kept_is_accepted, of_session, row_of, KeyedModel};
use crate::store::McStoreModel;
use crate::store::cache::version_of;
use crate::store::laws::drops::consumed_drops_leave_the_queue;
use crate::store::records::{PendingAgentDropModel, StoredCompartment, StoredCompartmentModel};
use crate::store::revert::behind_cut;
use crate::transform::errors::TransformErrorModel;
use crate::transform::machine::{
    cuts, ends, fails, on_composed, on_delta, on_folded, on_frozen_delta, on_injected, on_projected,
    on_recomposed, on_replayed, settled, PassJobModel, PassStageModel, WorkingModel,
};
use crate::transform::output::reductions_to_render;
use crate::transform::pass::{
    cleared, consumed, cut_target, delta_done, delta_input, fold_input, folded, pass_changed,
    refolded, start_fault, started, PassWorkModel,
};
use crate::transform::settling::{a_block_is_found, a_composition_is_frozen_in_place, is_shown};
use crate::transform::todo::InjectionOutcomeModel;
use crate::transform::types::{
    FlatBlockModel, FlatProjectionModel, M0CompositionModel, M1CompositionModel,
};
use crate::wire::CkWireMessageModel;

verus! {

/// Whether the conversation holds the boundary that a composition mints, if it needs one.
pub open spec fn holds_its_boundary(comp: M0CompositionModel, live: Seq<FlatBlockModel>) -> bool {
    comp.coverage_ordinal is Some ==> comp.boundary_id.len() > 0 && is_shown(
        live,
        comp.boundary_id,
    )
}

/// Whether a block that is not the system's lies before what a composition covers.
pub open spec fn leaves_a_gap(comp: M0CompositionModel, live: Seq<FlatBlockModel>) -> bool {
    comp.first_covered_ordinal matches Some(first) && exists|i: int|
        0 <= i < live.len() && (#[trigger] live[i]).ordinal < first && live[i].role != "system"@
}

/// Whether a pass goes on to freeze a composition: from a cleared cache, and with all that
/// the composition brings.
pub open spec fn goes_to_freeze(
    job: PassJobModel,
    w: WorkingModel,
    comp: M0CompositionModel,
    stage: PassStageModel,
) -> bool {
    &&& stage matches PassStageModel::FreezeHistory(x)
    &&& x.value.comp == comp
    &&& x.value.on.work == (PassWorkModel { core: cleared(w.work.core), ..w.work })
    &&& x.value.on.plan == w.plan
    &&& x.value.on.chosen == w.chosen
    &&& x.value.input == fold_input(
        w.work.core,
        w.start(),
        comp,
        w.chosen.reductions,
        job.placeholder,
    )
}

/// A conversation without a fault leads to the signals, with what the pass begins with; one
/// with a fault fails the pass.
pub proof fn a_sound_conversation_goes_on(
    job: PassJobModel,
    s: McStoreModel,
    projection: FlatProjectionModel,
)
    ensures
        ({
            let next = on_projected(job, s, projection);
            match start_fault(s, job.request, projection) {
                Some(e) => next == fails(job, e),
                None => {
                    &&& next.job == job
                    &&& next.stage matches PassStageModel::Signal(b)
                    &&& b.value.projection == projection
                    &&& b.value.start == started(s, job.request, projection, job.project_path)
                },
            }
        }),
{
}

/// A composition without a gap whose boundary is there is frozen. Without its boundary it
/// leads to a cut where the session is to be reconciled, and fails the pass else; with a gap
/// it fails in any case.
pub proof fn a_composition_leads_on(
    job: PassJobModel,
    s: McStoreModel,
    w: WorkingModel,
    comp: M0CompositionModel,
)
    ensures
        ({
            let next = on_composed(job, s, w, comp);
            let live = w.start().live;
            let pending = w.start().core.reconcile_pending;
            &&& !leaves_a_gap(comp, live) && holds_its_boundary(comp, live) ==> next.job == job
                && goes_to_freeze(job, w, comp, next.stage)
            &&& leaves_a_gap(comp, live) ==> (next.stage matches PassStageModel::Failed(
                TransformErrorModel::CoverageGap(_),
            ))
            &&& !leaves_a_gap(comp, live) && !holds_its_boundary(comp, live) && !pending ==> (
            next.stage matches PassStageModel::Failed(
                TransformErrorModel::BoundaryNotPresent(_),
            ))
            &&& !leaves_a_gap(comp, live) && !holds_its_boundary(comp, live) && pending ==> next
                == cuts(job, s, w)
        }),
{
    a_composition_is_frozen_in_place(comp, w.start().live, w.start().core.reconcile_pending);
}

/// Behind a cut, a composition whose boundary is there is frozen with the new digest and the
/// watermark pulled back, and another fails the pass.
pub proof fn a_composition_behind_a_cut_leads_on(
    job: PassJobModel,
    w: WorkingModel,
    keep: i64,
    comp: M0CompositionModel,
    m1_digest: u64,
)
    ensures
        ({
            let next = on_recomposed(job, w, keep, comp, m1_digest);
            let live = w.start().live;
            &&& holds_its_boundary(comp, live) ==> next.job == job && goes_to_freeze(
                job,
                w.with_work(refolded(w.work, comp, m1_digest)),
                comp,
                next.stage,
            )
            &&& !holds_its_boundary(comp, live) ==> (next.stage matches PassStageModel::Failed(
                TransformErrorModel::BoundaryNotPresent(_),
            ))
        }),
{
    a_block_is_found(w.start().live, comp.boundary_id);
}

/// A cut that nobody overtook hands out the history up to the last compartment that ends in
/// sight, by sequence, and waits to be written where it drops something.
pub proof fn a_cut_hands_out_what_is_left(
    job: PassJobModel,
    s: McStoreModel,
    w: WorkingModel,
    c: StoredCompartmentModel,
)
    requires
        cuts(job, s, w).stage is Recompose,
    ensures
        ({
            let session = job.request.session_id;
            let own = of_session(s.compartments, session);
            let x = cuts(job, s, w).stage->Recompose_0.value;
            &&& w.work.expected == version_of(s, session)
            &&& row_of(s.cache, session) is Some
            &&& x.keep == cut_target(s, session, w.start().live)
            &&& x.history.contains(c) <==> own.contains(c) && c.sequence <= x.keep
            &&& x.on.plan == w.plan
            &&& x.on.chosen == w.chosen
            &&& x.on.work.core == w.work.core
            &&& (exists|i: int| 0 <= i < own.len() && (#[trigger] own[i]).sequence > x.keep)
                ==> x.on.work.cut == Some(x.keep)
            &&& !(exists|i: int| 0 <= i < own.len() && (#[trigger] own[i]).sequence > x.keep)
                ==> x.on.work.cut is None
        }),
{
    reveal(crate::transform::pass::recut_work);
    let session = job.request.session_id;
    let own = of_session(s.compartments, session);
    let keep = cut_target(s, session, w.start().live);
    let p = crate::store::revert::up_to(keep);
    crate::store::laws::rows::a_reading_holds_what_is_accepted::<
        StoredCompartment,
        crate::store::compartments::SequenceOrder,
    >(own, p, c);
    let q = crate::store::revert::behind(keep);
    let gone = keep_where(own, q);
    crate::rows::sorted_len::<StoredCompartment, crate::store::compartments::SequenceOrder>(gone);
    kept_is_accepted(own, q);
    if exists|i: int| 0 <= i < own.len() && (#[trigger] own[i]).sequence > keep {
        let i = choose|i: int| 0 <= i < own.len() && (#[trigger] own[i]).sequence > keep;
        crate::rows::accepted_is_kept(own, q, own[i]);
    } else if gone.len() > 0 {
        assert(q(gone[0]) && own.contains(gone[0]));
        let i = choose|i: int| 0 <= i < own.len() && own[i] == gone[0];
        assert(own[i].sequence > keep);
    }
}

/// A delta that advances the boundary to a block that is not there fails the pass, and any
/// other is frozen.
pub proof fn a_delta_leads_on(job: PassJobModel, w: WorkingModel, delta: M1CompositionModel)
    ensures
        ({
            let next = on_delta(job, w, delta);
            let lost = delta.new_coverage matches Some(end) && !(end.boundary_id.len() > 0
                && is_shown(w.start().live, end.boundary_id));
            &&& lost ==> (next.stage matches PassStageModel::Failed(
                TransformErrorModel::BoundaryNotPresent(_),
            ))
            &&& !lost ==> {
                &&& next.job == job
                &&& next.stage matches PassStageModel::FreezeDelta(x)
                &&& x.value.delta == delta
                &&& x.value.on == w
                &&& x.value.input == delta_input(
                    w.work.core,
                    w.start(),
                    delta,
                    w.chosen.reductions,
                )
            }
        }),
{
    if let Some(end) = delta.new_coverage {
        a_block_is_found(w.start().live, end.boundary_id);
    }
}

/// Behind every step the todo pair is decided on, with the cache that the step left.
pub proof fn a_step_leads_to_the_pair(
    job: PassJobModel,
    w: WorkingModel,
    comp: M0CompositionModel,
    delta: M1CompositionModel,
    core: CoreStateModel,
    recaptured: Option<Seq<char>>,
)
    ensures
        on_folded(job, w, comp, core, recaptured).stage matches PassStageModel::Inject(x)
            && x.value.work == folded(
            w.work,
            w.start(),
            core,
            comp,
            w.signals().render_config,
            job.now_ms,
            recaptured,
        ) && x.value.plan == w.plan && x.value.chosen == w.chosen,
        on_frozen_delta(job, w, delta, core).stage matches PassStageModel::Inject(x)
            && x.value.work == delta_done(w.work, w.start(), core, delta) && x.value.plan == w.plan
            && x.value.chosen == w.chosen,
        on_replayed(job, w, core).stage matches PassStageModel::Inject(x) && x.value.work == (
        PassWorkModel { core, ..w.work }) && x.value.plan == w.plan && x.value.chosen == w.chosen,
{
}

/// A settled pass asks for the shorter forms of what its own cache has frozen, and renders
/// with the settled record; one that cannot be settled fails.
pub proof fn a_settled_pass_renders(
    job: PassJobModel,
    w: WorkingModel,
    injection: InjectionOutcomeModel,
)
    ensures
        ({
            let next = on_injected(job, w, injection);
            match settled(job, w, injection) {
                Err(e) => next == fails(job, e),
                Ok(meta) => {
                    &&& next.job == job
                    &&& next.stage matches PassStageModel::Render(x)
                    &&& x.value.wanted == reductions_to_render(
                        x.value.on.work.core,
                        x.value.on.projection().blocks,
                    )
                    &&& x.value.on.work == (PassWorkModel { meta, ..w.work })
                    &&& x.value.on.plan == w.plan
                    &&& x.value.on.chosen == w.chosen
                },
            }
        }),
{
}

/// The end of a pass that changed something takes the drops that it consumed out of the
/// queue and no others. An end that changed nothing leaves the store, and one that fails
/// too.
pub proof fn an_end_takes_the_consumed_drops(
    job: PassJobModel,
    s: McStoreModel,
    w: WorkingModel,
    messages: Seq<CkWireMessageModel>,
    drop: KeyedModel<PendingAgentDropModel>,
)
    ensures
        ({
            let (next, after) = ends(job, s, w, messages);
            let session = job.request.session_id;
            let ids = consumed(w.start(), w.gate(), w.plan);
            &&& next.stage is Served && pass_changed(w.work, w.start()) ==> (after.drops.contains(
                drop,
            ) <==> s.drops.contains(drop) && !(drop.session == session && ids.contains(
                drop.row.id,
            )))
            &&& next.stage !is Served ==> after == s
            &&& !pass_changed(w.work, w.start()) ==> after == s && next.stage is Served
            &&& next.stage is Served ==> {
                let done = next.stage->Served_0.value;
                &&& done.projection == w.projection()
                &&& done.scheduler_pass == w.signals().outcome.pass
                &&& next.job == job
            }
        }),
{
    let session = job.request.session_id;
    let ids = consumed(w.start(), w.gate(), w.plan);
    let t = behind_cut(s, session, w.work.cut);
    assert(t.drops == s.drops);
    consumed_drops_leave_the_queue(t.drops, session, ids);
    let (next, after) = ends(job, s, w, messages);
    if next.stage is Served && pass_changed(w.work, w.start()) {
        if after.drops.contains(drop) {
            let k = choose|k: int| 0 <= k < after.drops.len() && after.drops[k] == drop;
            assert(t.drops.contains(after.drops[k]));
        }
        if s.drops.contains(drop) {
            let i = choose|i: int| 0 <= i < s.drops.len() && s.drops[i] == drop;
            assert(t.drops[i] == drop);
        }
    }
}

} // verus!
