//! What a pass begins with, freezes, and leaves behind.

use vstd::prelude::*;

use crate::meta::{CoreStateModel, FrozenUnitModel, ModuleMetaModel, ModuleUsage};
use crate::rows::{
    accepted_is_kept, first_where, first_where_first, keep_where, kept_is_accepted, of_session,
    sorted_holds_the_same, sorted_is_ordered,
};
use crate::store::McStoreModel;
use crate::store::cache::loaded;
use crate::store::drops::DrainOrder;
use crate::store::records::{PendingAgentDrop, PendingAgentDropModel, TruncateOutcomeModel};
use crate::transform::deciding::{is_decided, is_new, new_decisions_are_first_decisions};
use crate::transform::errors::TransformErrorModel;
use crate::transform::ingress::{block_with_id, current_shape, known_key, units_with_key};
use crate::transform::machine::{
    at, fails, on_planned, on_selected, on_signals, BegunModel, ChosenModel, GatedModel,
    PassJobModel, PassSignalsModel, PassStageModel,
};
use crate::transform::pass::{
    answer, classified, cleared, committed_meta, consumed, delta_done, delta_input, fold_input,
    fold_step, folded, gated, last_ordinal, pass_changed, recut_work, refolded, started,
    stray_block, watermarked, work_begun, FoldStep, PassGateModel, PassStartModel, PassWorkModel,
};
use crate::transform::reductions::{frozen_reductions, new_decisions};
use crate::transform::types::{
    FlatBlockModel, FlatProjectionModel, M0CompositionModel, M1CompositionModel, PassClass,
    PassDecision, PassPlanModel, ReductionDecisionModel, SchedulerOutcomeModel, SelItemModel,
    StepAction, TransformRequestModel,
};
use crate::wire::CkWireMessageModel;

verus! {

/// Whether some block has an id.
pub open spec fn is_shown(live: Seq<FlatBlockModel>, id: Seq<char>) -> bool {
    exists|i: int| 0 <= i < live.len() && (#[trigger] live[i]).id == id
}

pub(crate) proof fn a_block_is_found(live: Seq<FlatBlockModel>, id: Seq<char>)
    ensures
        first_where(live, block_with_id(id)) is Some <==> is_shown(live, id),
{
    first_where_first(live, block_with_id(id));
    if let Some(i) = first_where(live, block_with_id(id)) {
        assert(live[i].id == id);
    }
    if is_shown(live, id) {
        let i = choose|i: int| 0 <= i < live.len() && (#[trigger] live[i]).id == id;
        assert(block_with_id(id)(live[i]));
    }
}

/// A pass begins with what is stored of its session: its cache, its version and its waiting
/// drops, all of them and in the order they came. The conversation's blocks are those that
/// no pass generated, and the boundary is present where one of them bears it. A session with
/// history and no boundary is due for its first fold.
pub proof fn a_pass_begins_with_what_is_stored(
    s: McStoreModel,
    request: TransformRequestModel,
    projection: FlatProjectionModel,
    project: Seq<char>,
    block: FlatBlockModel,
    drop: PendingAgentDropModel,
)
    ensures
        ({
            let start = started(s, request, projection, project);
            let now = loaded(s, request.session_id);
            &&& start.core == now.core
            &&& start.meta == now.meta
            &&& start.row_version == now.row_version
            &&& start.live.contains(block) <==> projection.blocks.contains(block)
                && !block.synthetic
            &&& start.boundary_present <==> now.core.boundary_id.len() > 0 && is_shown(
                start.live,
                now.core.boundary_id,
            )
            &&& start.boundary_present ==> start.boundary_token == now.core.boundary_id
            &&& !start.boundary_present ==> start.boundary_token == "-"@
            &&& start.first_fold_due <==> now.core.boundary_id.len() == 0 && of_session(
                s.compartments,
                request.session_id,
            ).len() > 0
            &&& start.pending_drops.contains(drop) <==> of_session(
                s.drops,
                request.session_id,
            ).contains(drop)
            &&& forall|a: int, b: int|
                0 <= a < b < start.pending_drops.len() ==> (
                #[trigger] start.pending_drops[a]).queued_at_ms <= (
                #[trigger] start.pending_drops[b]).queued_at_ms
            &&& (now.meta.deferred_execute_state matches Some(d) ==> (
            start.deferred_execute matches Some(x) && x.reason == d.reason))
            &&& now.meta.deferred_execute_state is None ==> start.deferred_execute is None
        }),
{
    reveal(started);
    let start = started(s, request, projection, project);
    let p = crate::transform::reductions::live_block();
    kept_is_accepted(projection.blocks, p);
    if projection.blocks.contains(block) && p(block) {
        accepted_is_kept(projection.blocks, p, block);
    }
    a_block_is_found(start.live, start.core.boundary_id);
    let own = of_session(s.drops, request.session_id);
    sorted_holds_the_same::<PendingAgentDrop, DrainOrder>(own, drop);
    sorted_is_ordered::<PendingAgentDrop, DrainOrder>(own);
    assert forall|a: int, b: int| 0 <= a < b < start.pending_drops.len() implies (
    #[trigger] start.pending_drops[a]).queued_at_ms <= (
    #[trigger] start.pending_drops[b]).queued_at_ms by {
        assert(<DrainOrder as crate::rows::RowOrder<PendingAgentDrop>>::le(
            start.pending_drops[a],
            start.pending_drops[b],
        ));
    }
}

/// Reductions may be produced exactly where the scheduler does not defer, or the state must be
/// rendered anew: it never was, its configuration changed, its boundary is lost, a first fold
/// is due or the idle time is over. Where they may not, nothing is selected; where they may,
/// an emergency cuts harder.
pub proof fn reductions_are_produced_when_they_must(
    start: PassStartModel,
    render_config: Seq<char>,
    outcome: SchedulerOutcomeModel,
)
    ensures
        ({
            let gate = gated(start, render_config, outcome);
            &&& gate.producer_gate <==> outcome.pass != PassDecision::Defer
                || !start.meta.initialized || render_config != start.meta.last_render_config || (
            start.core.reconcile_pending && !start.boundary_present) || start.first_fold_due
                || outcome.idle_ttl_fired
            &&& gate.render_config_changed <==> start.meta.initialized && render_config
                != start.meta.last_render_config
            &&& gate.hard_fold_requested <==> start.first_fold_due || outcome.idle_ttl_fired
            &&& gate.selection_class == PassClass::Defer <==> !gate.producer_gate
            &&& gate.selection_class == PassClass::EmergencyForce <==> outcome.pass
                == PassDecision::Force85 || outcome.pass == PassDecision::Emergency95
            &&& start.core.reconcile_pending ==> gate.last_execute_ordinal == 0
            &&& !start.core.reconcile_pending ==> gate.last_execute_ordinal
                == start.meta.last_execute_ordinal
            &&& gate.agent_drop_ids.len() == start.pending_drops.len()
            &&& forall|i: int|
                0 <= i < start.pending_drops.len() ==> #[trigger] gate.agent_drop_ids[i]
                    == start.pending_drops[i].target_id
        }),
{
    reveal(gated);
}

/// What decides the plan is what the pass began with: among it, whether some decision is
/// about a block of the tail that nothing is frozen of.
pub proof fn a_plan_is_decided_by_the_start(
    start: PassStartModel,
    gate: PassGateModel,
    reductions: Seq<ReductionDecisionModel>,
    m1_digest: u64,
)
    ensures
        ({
            let input = classified(start, gate, reductions, m1_digest);
            &&& input.initialized == start.meta.initialized
            &&& input.render_config_changed == gate.render_config_changed
            &&& input.hard_fold_requested == gate.hard_fold_requested
            &&& input.boundary_present == start.boundary_present
            &&& input.reconcile_pending == start.core.reconcile_pending
            &&& input.m1_revision_changed <==> m1_digest != start.meta.m1_revision
            &&& input.reductions_pending <==> exists|i: int|
                0 <= i < reductions.len() && is_new(
                    start.core,
                    start.live,
                    start.meta.coverage_ordinal,
                    (#[trigger] reductions[i]).target_id,
                )
            &&& input.is_legacy_baseline <==> start.core.frozen_units.len() == 1
                && start.core.frozen_units[0].key == "baseline"@
                && start.core.pending_changes.len() == 0
        }),
{
    reveal(classified);
    let input = classified(start, gate, reductions, m1_digest);
    let coverage = start.meta.coverage_ordinal;
    if input.reductions_pending {
        let i = choose|i: int|
            0 <= i < reductions.len() && crate::transform::reductions::new_decision(
                start.core,
                start.live,
                coverage,
                #[trigger] reductions[i],
            );
        one_decision_is_new(start.core, start.live, coverage, reductions[i]);
    }
    if exists|i: int|
        0 <= i < reductions.len() && is_new(
            start.core,
            start.live,
            coverage,
            (#[trigger] reductions[i]).target_id,
        ) {
        let i = choose|i: int|
            0 <= i < reductions.len() && is_new(
                start.core,
                start.live,
                coverage,
                (#[trigger] reductions[i]).target_id,
            );
        one_decision_is_new(start.core, start.live, coverage, reductions[i]);
    }
}

proof fn one_decision_is_new(
    core: CoreStateModel,
    live: Seq<FlatBlockModel>,
    coverage: Option<u64>,
    r: ReductionDecisionModel,
)
    ensures
        crate::transform::reductions::new_decision(core, live, coverage, r) <==> is_new(
            core,
            live,
            coverage,
            r.target_id,
        ),
{
    let one = seq![r];
    new_decisions_are_first_decisions(core, live, coverage, one, r.target_id);
    assert(one[0].target_id == r.target_id);
    assert(is_decided(one, r.target_id));
    assert(one.drop_last() =~= Seq::empty());
    assert(one.last() == r);
    let none = new_decisions(core, live, coverage, one.drop_last());
    let p = |x: ReductionDecisionModel| x.target_id == r.target_id;
    assert(none.len() == 0);
    if crate::transform::reductions::new_decision(core, live, coverage, r) {
        let new = new_decisions(core, live, coverage, one);
        assert(new == seq![r]);
        first_where_first(new, p);
        assert(p(new[0]));
    } else {
        first_where_first(none, p);
    }
}

/// Of frozen units in the current shape one is the history block, one the delta block, and
/// all others are reductions.
pub proof fn the_current_shape_has_one_of_each(core: CoreStateModel, i: int, j: int)
    requires
        current_shape(core),
        0 <= i < j < core.frozen_units.len(),
    ensures
        core.frozen_units[i].key == "m0"@ ==> core.frozen_units[j].key != "m0"@,
        core.frozen_units[i].key == "m1"@ ==> core.frozen_units[j].key != "m1"@,
        is_unit_key(core.frozen_units[i].key),
        exists|k: int|
            0 <= k < core.frozen_units.len() && (#[trigger] core.frozen_units[k]).key == "m0"@,
        exists|k: int|
            0 <= k < core.frozen_units.len() && (#[trigger] core.frozen_units[k]).key == "m1"@,
{
    assert(crate::transform::reductions::RED_KEY_PREFIX@ == "red:"@);
    two_units_count_twice(core.frozen_units, "m0"@, i, j);
    two_units_count_twice(core.frozen_units, "m1"@, i, j);
    assert(known_key(core.frozen_units[i].key));
}

/// Frozen units of which one is the history block, one the delta block, and all others are
/// reductions, are in the current shape.
pub proof fn one_of_each_is_the_current_shape(core: CoreStateModel, a: int, b: int)
    requires
        0 <= a < core.frozen_units.len(),
        0 <= b < core.frozen_units.len(),
        core.frozen_units[a].key == "m0"@,
        core.frozen_units[b].key == "m1"@,
        forall|k: int|
            0 <= k < core.frozen_units.len() ==> is_unit_key((#[trigger] core.frozen_units[k]).key)
                && (k != a ==> core.frozen_units[k].key != "m0"@) && (k != b
                ==> core.frozen_units[k].key != "m1"@),
    ensures
        current_shape(core),
{
    assert(crate::transform::reductions::RED_KEY_PREFIX@ == "red:"@);
    one_unit_counts_once(core.frozen_units, "m0"@, a);
    one_unit_counts_once(core.frozen_units, "m1"@, b);
    assert forall|k: int| 0 <= k < core.frozen_units.len() implies known_key(
        (#[trigger] core.frozen_units[k]).key,
    ) by {
        assert(is_unit_key(core.frozen_units[k].key));
    }
}

proof fn no_unit_counts_none(units: Seq<FrozenUnitModel>, key: Seq<char>)
    requires
        forall|k: int| 0 <= k < units.len() ==> (#[trigger] units[k]).key != key,
    ensures
        units_with_key(units, key) == 0,
{
    a_count_has_a_unit(units, key);
}

proof fn one_unit_counts_once(units: Seq<FrozenUnitModel>, key: Seq<char>, a: int)
    requires
        0 <= a < units.len(),
        units[a].key == key,
        forall|k: int| 0 <= k < units.len() && k != a ==> (#[trigger] units[k]).key != key,
    ensures
        units_with_key(units, key) == 1,
    decreases units.len(),
{
    let rest = units.drop_last();
    let n = units.len() - 1;
    assert(units[n] == units.last());
    if a < n {
        assert(units[n].key != key);
        assert forall|k: int| 0 <= k < rest.len() && k != a implies (#[trigger] rest[k]).key
            != key by {
            assert(rest[k] == units[k]);
        }
        one_unit_counts_once(rest, key, a);
    } else {
        assert forall|k: int| 0 <= k < rest.len() implies (#[trigger] rest[k]).key != key by {
            assert(rest[k] == units[k]);
        }
        no_unit_counts_none(rest, key);
    }
}

/// Whether a key is that of the history block, of the delta block or of a reduction.
pub open spec fn is_unit_key(key: Seq<char>) -> bool {
    key == "m0"@ || key == "m1"@ || crate::text::starts(key, "red:"@)
}

proof fn two_units_count_twice(units: Seq<FrozenUnitModel>, key: Seq<char>, i: int, j: int)
    requires
        0 <= i < j < units.len(),
    ensures
        units[i].key == key && units[j].key == key ==> units_with_key(units, key) >= 2,
        units_with_key(units, key) > 0 ==> exists|k: int|
            0 <= k < units.len() && (#[trigger] units[k]).key == key,
{
    one_unit_counts(units, key, j);
    if units[i].key == key && units[j].key == key {
        one_before_another(units, key, i, j);
    }
    a_count_has_a_unit(units, key);
}

proof fn one_unit_counts(units: Seq<FrozenUnitModel>, key: Seq<char>, i: int)
    requires
        0 <= i < units.len(),
    ensures
        units[i].key == key ==> units_with_key(units, key) >= 1,
    decreases units.len(),
{
    if i < units.len() - 1 {
        one_unit_counts(units.drop_last(), key, i);
    }
}

proof fn one_before_another(units: Seq<FrozenUnitModel>, key: Seq<char>, i: int, j: int)
    requires
        0 <= i < j < units.len(),
        units[i].key == key,
        units[j].key == key,
    ensures
        units_with_key(units, key) >= 2,
    decreases units.len(),
{
    if j < units.len() - 1 {
        one_before_another(units.drop_last(), key, i, j);
    } else {
        one_unit_counts(units.drop_last(), key, i);
    }
}

proof fn a_count_has_a_unit(units: Seq<FrozenUnitModel>, key: Seq<char>)
    ensures
        units_with_key(units, key) > 0 ==> exists|k: int|
            0 <= k < units.len() && (#[trigger] units[k]).key == key,
    decreases units.len(),
{
    if units.len() > 0 {
        let rest = units.drop_last();
        a_count_has_a_unit(rest, key);
        assert(units[units.len() - 1] == units.last());
        if units_with_key(rest, key) > 0 {
            let k = choose|k: int| 0 <= k < rest.len() && (#[trigger] rest[k]).key == key;
            assert(units[k].key == key);
        }
    }
}

/// The work of a pass begins at what is stored. Where the pass renders anew, the todo list is
/// the one that was captured, and else the last stays.
pub proof fn work_begins_at_what_is_stored(
    start: PassStartModel,
    usage: Option<ModuleUsage>,
    projection: FlatProjectionModel,
    outcome: SchedulerOutcomeModel,
    plan: PassPlanModel,
    captured: Option<Seq<char>>,
    m1_digest: u64,
)
    ensures
        ({
            let work = work_begun(start, usage, projection, outcome, plan, captured, m1_digest);
            &&& work.core == start.core
            &&& work.expected == start.row_version
            &&& work.cut is None
            &&& work.m1_digest == m1_digest
            &&& !work.coverage_shrunk
            &&& plan is Hard || plan is MigrateHard || plan is Soft ==> work.meta.last_todo_state
                == captured
            &&& plan is Defer ==> work.meta.last_todo_state == start.meta.last_todo_state
            &&& work.meta.coverage_ordinal == start.meta.coverage_ordinal
            &&& work.meta.initialized == start.meta.initialized
            &&& work.meta.last_render_config == start.meta.last_render_config
            &&& work.meta.m1_revision == start.meta.m1_revision
            &&& work.meta.synthetic_todo == start.meta.synthetic_todo
            &&& work.meta.last_execute_ordinal == start.meta.last_execute_ordinal
            &&& work.meta.emergency_drain_active == (outcome.drain_latch.active_since_ms is Some)
            &&& (usage matches Some(u) ==> (u.current_total_input_tokens > 0
                || u.context_limit_tokens > 0 ==> work.meta.last_usage == Some(u)))
            &&& usage is None ==> work.meta.last_usage == start.meta.last_usage
        }),
{
    reveal(work_begun);
}

/// A fold freezes the composed history first, then an empty delta, and behind them nothing
/// but reductions; its boundary becomes the session's.
pub proof fn a_fold_freezes_the_history(
    core: CoreStateModel,
    start: PassStartModel,
    comp: M0CompositionModel,
    reductions: Seq<ReductionDecisionModel>,
    placeholder: Seq<char>,
)
    ensures
        ({
            let input = fold_input(core, start, comp, reductions, placeholder);
            let units = input.rendered_units;
            &&& input.proposed == StepAction::Hard
            &&& input.new_boundary_id == Some(comp.boundary_id)
            &&& input.boundary_present == start.boundary_token
            &&& units.len() >= 2
            &&& units[0].key == "m0"@ && units[0].frozen_payload == comp.m0_bytes
            &&& units[1].key == "m1"@ && units[1].frozen_payload == placeholder
            &&& forall|k: int|
                2 <= k < units.len() ==> crate::text::starts((#[trigger] units[k]).key, "red:"@)
            &&& units.skip(2) == crate::transform::reductions::survivors(
                crate::transform::reductions::in_effect(core, reductions),
                start.live,
                comp.coverage_ordinal,
            )
        }),
{
    reveal(fold_input);
    assert(crate::transform::reductions::RED_KEY_PREFIX@ == "red:"@);
    let units = fold_input(core, start, comp, reductions, placeholder).rendered_units;
    let left = crate::transform::reductions::survivors(
        crate::transform::reductions::in_effect(core, reductions),
        start.live,
        comp.coverage_ordinal,
    );
    assert(units.skip(2) =~= left);
    assert forall|k: int| 2 <= k < units.len() implies crate::text::starts(
        (#[trigger] units[k]).key,
        "red:"@,
    ) by {
        assert(units[k] == left[k - 2]);
        let kept = keep_where(
            crate::transform::reductions::in_effect(core, reductions),
            crate::transform::reductions::still_in_tail(start.live, comp.coverage_ordinal),
        );
        assert(units[k].key == "red:"@ + kept[k - 2].target_id);
        assert(units[k].key.take("red:"@.len() as int) =~= "red:"@);
    }
}

/// Behind a fold the record says what the composition covers and under which configuration
/// and revision it was rendered; where it covers less than before, the todo list is the one
/// of the longer tail.
pub proof fn a_fold_is_recorded(
    work: PassWorkModel,
    start: PassStartModel,
    stepped: CoreStateModel,
    comp: M0CompositionModel,
    render_config: Seq<char>,
    now_ms: i64,
    recaptured: Option<Seq<char>>,
)
    ensures
        ({
            let after = folded(work, start, stepped, comp, render_config, now_ms, recaptured);
            let less = match (start.meta.coverage_ordinal, comp.coverage_ordinal) {
                (Some(a), Some(b)) => b < a,
                (Some(_), None) => true,
                _ => false,
            };
            &&& after.core == stepped
            &&& after.meta.initialized
            &&& after.meta.last_render_config == render_config
            &&& after.meta.coverage_ordinal == comp.coverage_ordinal
            &&& after.meta.folded_compartment_seq == comp.folded_compartment_seq
            &&& after.meta.rendered_memory_ids == comp.rendered_memory_ids
            &&& after.meta.memory_mutation_cursor == comp.memory_mutation_cursor
            &&& after.meta.max_memory_id == comp.max_memory_id
            &&& after.meta.expiry_cutoff_ms == now_ms
            &&& after.meta.m1_revision == work.m1_digest
            &&& after.coverage_shrunk <==> less
            &&& less ==> after.meta.last_todo_state == recaptured
            &&& !less ==> after.meta.last_todo_state == work.meta.last_todo_state
            &&& after.meta.synthetic_todo == work.meta.synthetic_todo
            &&& after.meta.revert_epoch == work.meta.revert_epoch
            &&& after.expected == work.expected
            &&& after.cut == work.cut
        }),
{
    reveal(folded);
}

/// A composition is frozen only where no block but the system's lies before what it covers,
/// and where it covers something the conversation holds its boundary. A boundary that is not
/// there means a cut where the session is to be reconciled, and a failure else.
pub proof fn a_composition_is_frozen_in_place(
    comp: M0CompositionModel,
    live: Seq<FlatBlockModel>,
    reconcile_pending: bool,
)
    ensures
        ({
            let r = fold_step(comp, live, reconcile_pending);
            let gap = comp.first_covered_ordinal matches Some(first) && exists|i: int|
                0 <= i < live.len() && (#[trigger] live[i]).ordinal < first && live[i].role
                    != "system"@;
            let lost = comp.coverage_ordinal is Some && !(comp.boundary_id.len() > 0 && is_shown(
                live,
                comp.boundary_id,
            ));
            &&& gap <==> (r matches Err(TransformErrorModel::CoverageGap(_)))
            &&& !gap && !lost <==> r == Ok::<FoldStep, TransformErrorModel>(FoldStep::Ready)
            &&& !gap && lost && reconcile_pending <==> r == Ok::<FoldStep, TransformErrorModel>(
                FoldStep::Recut,
            )
            &&& !gap && lost && !reconcile_pending <==> (
            r matches Err(TransformErrorModel::BoundaryNotPresent(_)))
        }),
{
    a_block_is_found(live, comp.boundary_id);
    if let Some(first) = comp.first_covered_ordinal {
        let p = stray_block(first);
        first_where_first(live, p);
        if let Some(i) = first_where(live, p) {
            assert(live[i].ordinal < first && live[i].role != "system"@);
        }
        if exists|i: int|
            0 <= i < live.len() && (#[trigger] live[i]).ordinal < first && live[i].role
                != "system"@ {
            let i = choose|i: int|
                0 <= i < live.len() && (#[trigger] live[i]).ordinal < first && live[i].role
                    != "system"@;
            assert(p(live[i]));
        }
    }
}

/// A delta freezes its body and one unit for each new decision, under its target and with
/// its text; its boundary, if it has one, becomes the session's.
pub proof fn a_delta_freezes_new_decisions(
    core: CoreStateModel,
    start: PassStartModel,
    m1: M1CompositionModel,
    reductions: Seq<ReductionDecisionModel>,
)
    ensures
        ({
            let input = delta_input(core, start, m1, reductions);
            let units = input.rendered_units;
            let new = new_decisions(core, start.live, start.meta.coverage_ordinal, reductions);
            &&& input.proposed == StepAction::Soft
            &&& input.boundary_present == start.boundary_token
            &&& (m1.new_coverage matches Some(end) ==> input.new_boundary_id == Some(
                end.boundary_id,
            ))
            &&& m1.new_coverage is None ==> input.new_boundary_id is None
            &&& units.len() == new.len() + 1
            &&& units[0].key == "m1"@ && units[0].frozen_payload == m1.body
            &&& forall|k: int|
                0 <= k < new.len() ==> (#[trigger] units[k + 1]).key == "red:"@ + new[k].target_id
                    && units[k + 1].kind == new[k].kind && units[k + 1].frozen_payload
                    == new[k].payload
        }),
{
    reveal(delta_input);
    assert(crate::transform::reductions::RED_KEY_PREFIX@ == "red:"@);
    let units = delta_input(core, start, m1, reductions).rendered_units;
    let new = new_decisions(core, start.live, start.meta.coverage_ordinal, reductions);
    assert forall|k: int| 0 <= k < new.len() implies (#[trigger] units[k + 1]).key == "red:"@
        + new[k].target_id && units[k + 1].kind == new[k].kind && units[k + 1].frozen_payload
        == new[k].payload by {
        assert(units[k + 1] == frozen_reductions(new)[k]);
    }
}

/// Behind a delta the record holds its revision; where it covers more, the coverage is the
/// new one, the reductions that became covered go, and the rest of the record stays.
pub proof fn a_delta_is_recorded(
    work: PassWorkModel,
    start: PassStartModel,
    stepped: CoreStateModel,
    m1: M1CompositionModel,
)
    ensures
        ({
            let after = delta_done(work, start, stepped, m1);
            &&& after.meta == (ModuleMetaModel {
                coverage_ordinal: after.meta.coverage_ordinal,
                m1_revision: after.meta.m1_revision,
                ..work.meta
            })
            &&& after.meta.m1_revision == work.m1_digest
            &&& (m1.new_coverage matches Some(end) ==> after.meta.coverage_ordinal == Some(
                end.ordinal,
            ))
            &&& (m1.new_coverage matches Some(end) ==> after.core
                == crate::transform::reductions::pruned(stepped, start.live, Some(end.ordinal)))
            &&& m1.new_coverage is None ==> after.core == stepped
                && after.meta.coverage_ordinal == work.meta.coverage_ordinal
            &&& after.core.boundary_id == stepped.boundary_id
            &&& after.core.version == stepped.version
            &&& after.expected == work.expected
            &&& after.cut == work.cut
        }),
{
    reveal(delta_done);
}

proof fn the_last_ordinal_is_the_largest(items: Seq<SelItemModel>)
    ensures
        forall|i: int| 0 <= i < items.len() ==> (#[trigger] items[i]).ordinal <= last_ordinal(items),
        items.len() == 0 ==> last_ordinal(items) == 0,
        items.len() > 0 ==> exists|i: int|
            0 <= i < items.len() && (#[trigger] items[i]).ordinal == last_ordinal(items),
    decreases items.len(),
{
    if items.len() > 0 {
        let rest = items.drop_last();
        the_last_ordinal_is_the_largest(rest);
        assert(items[items.len() - 1] == items.last());
        assert forall|i: int| 0 <= i < items.len() implies (#[trigger] items[i]).ordinal
            <= last_ordinal(items) by {
            if i < rest.len() {
                assert(rest[i] == items[i]);
            }
        }
        if rest.len() > 0 {
            let i = choose|i: int|
                0 <= i < rest.len() && (#[trigger] rest[i]).ordinal == last_ordinal(rest);
            assert(items[i] == rest[i]);
        }
    }
}

/// The execution watermark reaches every block of the tail where the scheduler lets the pass
/// execute and nothing is to be reconciled, goes no further than the tail or where it was,
/// and stays else. An emergency that cut something is remembered with its usage; no other
/// field changes.
pub proof fn an_execution_is_marked(
    meta: ModuleMetaModel,
    start: PassStartModel,
    gate: PassGateModel,
    pass: PassDecision,
    bust: bool,
    pending: bool,
)
    ensures
        ({
            let after = watermarked(meta, start, gate, pass, bust, pending);
            let executes = pass != PassDecision::Defer && !start.core.reconcile_pending;
            let emergency = bust && pending && gate.selection_class == PassClass::EmergencyForce;
            &&& after == (ModuleMetaModel {
                last_execute_ordinal: after.last_execute_ordinal,
                last_emergency_input_sample: after.last_emergency_input_sample,
                has_prior_emergency_drop: after.has_prior_emergency_drop,
                ..meta
            })
            &&& !executes ==> after.last_execute_ordinal == meta.last_execute_ordinal
            &&& executes ==> forall|i: int|
                0 <= i < gate.tail.len() ==> (#[trigger] gate.tail[i]).ordinal
                    <= after.last_execute_ordinal
            &&& after.last_execute_ordinal == meta.last_execute_ordinal || exists|i: int|
                0 <= i < gate.tail.len() && (#[trigger] gate.tail[i]).ordinal
                    == after.last_execute_ordinal
            &&& after.last_execute_ordinal >= meta.last_execute_ordinal
            &&& emergency ==> after.has_prior_emergency_drop && after.last_emergency_input_sample
                == start.usage.current_total_input_tokens
            &&& !emergency ==> after.has_prior_emergency_drop == meta.has_prior_emergency_drop
                && after.last_emergency_input_sample == meta.last_emergency_input_sample
        }),
{
    reveal(watermarked);
    the_last_ordinal_is_the_largest(gate.tail);
}

/// A pass consumes all drops that waited when it began, or none: all where it rendered anew
/// and reductions may be produced.
pub proof fn drops_are_consumed_by_a_rendering(
    start: PassStartModel,
    gate: PassGateModel,
    plan: PassPlanModel,
)
    ensures
        ({
            let ids = consumed(start, gate, plan);
            let renders = (plan is Hard || plan is MigrateHard || plan is Soft)
                && gate.producer_gate;
            &&& !renders ==> ids.len() == 0
            &&& renders ==> ids.len() == start.pending_drops.len() && forall|i: int|
                0 <= i < start.pending_drops.len() ==> #[trigger] ids[i]
                    == start.pending_drops[i].id
        }),
{
}

/// Behind a cut the execution watermark goes no further than the coverage, and the epoch is
/// the one of the cut.
pub proof fn a_cut_pulls_the_watermark_back(
    work: PassWorkModel,
    outcome: TruncateOutcomeModel,
    cut: Option<i64>,
    comp: M0CompositionModel,
    m1_digest: u64,
)
    ensures
        ({
            let recut = recut_work(work, outcome, cut);
            let again = refolded(recut, comp, m1_digest);
            &&& recut.cut == cut
            &&& recut.core == work.core
            &&& recut.meta.revert_epoch == outcome.revert_epoch
            &&& recut.meta.last_recut == outcome.last_recut
            &&& recut.meta.last_execute_ordinal == work.meta.last_execute_ordinal
            &&& again.cut == cut
            &&& again.m1_digest == m1_digest
            &&& again.meta.last_execute_ordinal <= work.meta.last_execute_ordinal
            &&& (comp.coverage_ordinal matches Some(c) ==> again.meta.last_execute_ordinal <= c)
            &&& comp.coverage_ordinal is None ==> again.meta.last_execute_ordinal == 0
            &&& (comp.coverage_ordinal matches Some(c) ==> (work.meta.last_execute_ordinal <= c
                ==> again.meta.last_execute_ordinal == work.meta.last_execute_ordinal))
            &&& (comp.coverage_ordinal matches Some(c) ==> (work.meta.last_execute_ordinal > c
                ==> again.meta.last_execute_ordinal == c))
        }),
{
    reveal(recut_work);
    reveal(refolded);
}

/// A pass is committed exactly where it changed its session's cache or cuts its history.
pub proof fn a_change_is_committed(work: PassWorkModel, start: PassStartModel)
    ensures
        !pass_changed(work, start) <==> work.core == start.core && work.meta == start.meta
            && work.cut is None,
{
}

/// What is committed is the work's record with the time of the pass.
pub proof fn a_commit_tells_its_time(work: PassWorkModel, now_ms: i64)
    ensures
        committed_meta(work, now_ms).last_committed_pass_at_ms == now_ms,
        committed_meta(work, now_ms) == (ModuleMetaModel {
            last_committed_pass_at_ms: now_ms,
            ..work.meta
        }),
{
    reveal(committed_meta);
}

/// A fold starts from a cache without units and without queued changes; all else of it stays.
pub proof fn a_fold_starts_clear(core: CoreStateModel)
    ensures
        cleared(core).frozen_units.len() == 0,
        cleared(core).pending_changes.len() == 0,
        cleared(core).boundary_id == core.boundary_id,
        cleared(core).version == core.version,
        cleared(core).reconcile_pending == core.reconcile_pending,
{
    reveal(cleared);
}

/// An answer tells what the pass served: the rendered messages, the session's boundary and
/// coverage, the version of its row and whether it was written, under the name of the plan.
pub proof fn an_answer_tells_the_state(
    request: TransformRequestModel,
    work: PassWorkModel,
    plan: PassPlanModel,
    row_version: u64,
    committed: bool,
    messages: Seq<CkWireMessageModel>,
)
    ensures
        ({
            let r = answer(request, work, plan, row_version, committed, messages);
            &&& r.ck_messages == Some(messages)
            &&& r.boundary_id == work.core.boundary_id
            &&& r.reconcile_pending == work.core.reconcile_pending
            &&& r.version == work.core.version
            &&& r.row_version == row_version
            &&& r.committed == committed
            &&& r.coverage_ordinal == work.meta.coverage_ordinal
            &&& r.full_array_fingerprint == request.full_array_fingerprint
            &&& r.historian is None
            &&& plan is Hard || plan is MigrateHard ==> r.action == "HARD"@
            &&& plan is Soft ==> r.action == "SOFT"@
            &&& plan is Defer ==> r.action == "SOFT+"@
        }),
{
    reveal(answer);
}

// --- the way of a pass ----------------------------------------------------------------------

/// Reductions are selected only where they may be produced. Elsewhere the pass goes on to its
/// plan without any.
pub proof fn a_deferred_pass_selects_nothing(
    job: PassJobModel,
    b: BegunModel,
    signals: PassSignalsModel,
)
    ensures
        ({
            let gate = gated(b.start, signals.render_config, signals.outcome);
            let next = on_signals(job, b, signals);
            &&& gate.producer_gate <==> next.stage is Select
            &&& !gate.producer_gate ==> (next.stage matches PassStageModel::Plan(c)
                && c.value.reductions.len() == 0)
        }),
{
}

/// A selection that decides otherwise of a frozen block fails the pass, and any other leads
/// to the plan.
pub proof fn a_frozen_block_is_not_decided_anew(
    job: PassJobModel,
    g: GatedModel,
    reductions: Seq<ReductionDecisionModel>,
)
    ensures
        ({
            let next = on_selected(job, g, reductions);
            let core = g.begun.start.core;
            &&& (forall|i: int|
                0 <= i < reductions.len() ==> (
                crate::transform::reductions::frozen_payload(
                    core,
                    (#[trigger] reductions[i]).target_id,
                ) matches Some(text) ==> text == reductions[i].payload)) ==> (
            next.stage matches PassStageModel::Plan(c) && c.value.reductions == reductions)
            &&& (exists|i: int|
                0 <= i < reductions.len() && (crate::transform::reductions::frozen_payload(
                    core,
                    (#[trigger] reductions[i]).target_id,
                ) matches Some(text) && text != reductions[i].payload)) ==> next == fails(
                job,
                TransformErrorModel::ReductionConflict,
            )
        }),
{
    let core = g.begun.start.core;
    if exists|i: int|
        0 <= i < reductions.len() && (crate::transform::reductions::frozen_payload(
            core,
            (#[trigger] reductions[i]).target_id,
        ) matches Some(text) && text != reductions[i].payload) {
        let i = choose|i: int|
            0 <= i < reductions.len() && (crate::transform::reductions::frozen_payload(
                core,
                (#[trigger] reductions[i]).target_id,
            ) matches Some(text) && text != reductions[i].payload);
        assert(crate::transform::reductions::contradicts(core, reductions[i]));
    }
}

/// A pass follows its plan: to render the history it composes it, for a delta it composes
/// that, deferred it replays, and rejected it fails.
pub proof fn a_pass_follows_its_plan(
    job: PassJobModel,
    c: ChosenModel,
    plan: PassPlanModel,
    captured: Option<Seq<char>>,
)
    ensures
        ({
            let next = on_planned(job, c, plan, captured);
            &&& plan is Hard || plan is MigrateHard <==> next.stage is Compose
            &&& plan is Soft <==> next.stage is ComposeDelta
            &&& plan is Defer <==> next.stage is Replay
            &&& (plan matches PassPlanModel::Reject(why) ==> next == fails(
                job,
                TransformErrorModel::UnknownShape(why),
            ))
            &&& (next.stage matches PassStageModel::Replay(x) ==> {
                &&& x.value.input.rendered_units.len() == 0
                &&& x.value.input.new_boundary_id is None
                &&& x.value.input.proposed == StepAction::SoftPlus
            })
        }),
{
}

/// A pass that another writer overtook starts over from the beginning, up to eight times; any
/// other failure ends it with its error.
pub proof fn a_failure_ends_or_starts_over(job: PassJobModel, e: TransformErrorModel)
    ensures
        ({
            let next = fails(job, e);
            &&& (next.stage is Failed ==> next == at(job, PassStageModel::Failed(e)))
            &&& next.stage is Failed || next.stage is Project
            &&& next.stage is Project ==> next.job == (PassJobModel {
                attempt: (job.attempt + 1) as u32,
                ..job
            })
            &&& next.stage is Project <==> job.attempt < 8 && (
            e matches TransformErrorModel::Store(
                crate::store::errors::McStoreError::CasConflict { expected: _, found: _ },
            ))
        }),
{
}

} // verus!
