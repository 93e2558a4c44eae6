//! What a pass reads of its request and decides on: reductions, identities, the tail.

use vstd::prelude::*;

use crate::meta::{CoreStateModel, FrozenUnitModel, MidIdentityModel, ModuleMetaModel, ModuleUsage};
use crate::rows::{
    accepted_is_kept, find_where, first_where, first_where_first, first_where_is, keep_where,
    kept_is_accepted,
};
use crate::store::records::StoredCompartmentModel;
use crate::text::starts;
use crate::transform::errors::TransformErrorModel;
use crate::transform::ingress::{
    identities_of, identity_fault, ingress_fault, kept_sequence, latch_of, live_block_with_id,
    mid_tool_use, newest_assistant, no_repeat_means_distinct, open_call, request_of, reserved_block,
    scheduled_meta, selected_item, surviving_prefix, tail_items, usage_in_effect, with_identities,
    RESERVED_ID_PREFIX,
};
use crate::transform::reductions::{
    by_target, decision_for, frozen_decisions, frozen_targets, in_effect, in_tail, new_decisions,
    one_decision_per_target, ordinal_of, pruned, red_target, still_in_tail, survivors, tail_block,
    unit_stays, with_decisions, RED_KEY_PREFIX,
};
use crate::transform::todo::{tail_end, todo_advanced, InjectionOutcomeModel};
use crate::transform::types::{
    CkIngressMessageModel, FlatBlockModel, FlatProjectionModel, PassDecision,
    ReductionDecisionModel, SchedulerOutcomeModel, SelKindModel, TransformRequestWireModel,
};
use crate::wire::CkKindModel;

verus! {

// --- reductions ---------------------------------------------------------------------------

/// Whether a decision at a place is the first for its target.
pub open spec fn first_for_target(s: Seq<ReductionDecisionModel>, i: int) -> bool {
    forall|j: int| 0 <= j < i ==> (#[trigger] s[j]).target_id != s[i].target_id
}

/// Whether a unit at a place is the last with its key.
pub open spec fn last_of_its_key(units: Seq<FrozenUnitModel>, i: int) -> bool {
    forall|j: int| i < j < units.len() ==> (#[trigger] units[j]).key != units[i].key
}

/// Whether some unit has the key of a reduction of a target.
pub open spec fn is_frozen(units: Seq<FrozenUnitModel>, target: Seq<char>) -> bool {
    exists|i: int| 0 <= i < units.len() && (#[trigger] units[i]).key == "red:"@ + target
}

/// Whether some decision is about a target.
pub open spec fn is_decided(s: Seq<ReductionDecisionModel>, target: Seq<char>) -> bool {
    exists|i: int| 0 <= i < s.len() && (#[trigger] s[i]).target_id == target
}

proof fn a_key_names_its_target(u: FrozenUnitModel, target: Seq<char>)
    ensures
        red_target(u) == Some(target) <==> u.key == "red:"@ + target,
{
    assert(RED_KEY_PREFIX@ == "red:"@);
    let prefix = RED_KEY_PREFIX@;
    if red_target(u) == Some(target) {
        assert(u.key =~= prefix + u.key.skip(prefix.len() as int));
    }
    if u.key == prefix + target {
        assert(u.key.skip(prefix.len() as int) =~= target);
        assert(u.key.take(prefix.len() as int) =~= prefix);
    }
}

proof fn what_a_unit_adds(units: Seq<FrozenUnitModel>, target: Seq<char>)
    requires
        units.len() > 0,
        by_target(frozen_decisions(units.drop_last())),
    ensures
        by_target(frozen_decisions(units)),
        units.last().key == "red:"@ + target ==> decision_for(frozen_decisions(units), target)
            == Some(
            ReductionDecisionModel {
                target_id: target,
                kind: units.last().kind,
                payload: units.last().frozen_payload,
            },
        ),
        units.last().key != "red:"@ + target ==> decision_for(frozen_decisions(units), target)
            == decision_for(frozen_decisions(units.drop_last()), target),
{
    let u = units.last();
    a_key_names_its_target(u, target);
    if let Some(t) = red_target(u) {
        a_key_names_its_target(u, t);
        one_decision_per_target(
            frozen_decisions(units.drop_last()),
            ReductionDecisionModel { target_id: t, kind: u.kind, payload: u.frozen_payload },
            true,
            target,
        );
    }
}

proof fn frozen_is_decided(units: Seq<FrozenUnitModel>, target: Seq<char>)
    ensures
        by_target(frozen_decisions(units)),
        decision_for(frozen_decisions(units), target) is Some <==> is_frozen(units, target),
    decreases units.len(),
{
    if units.len() == 0 {
        first_where_first(
            frozen_decisions(units),
            |r: ReductionDecisionModel| r.target_id == target,
        );
    } else {
        let rest = units.drop_last();
        frozen_is_decided(rest, target);
        what_a_unit_adds(units, target);
        assert(units[units.len() - 1] == units.last());
        if is_frozen(units, target) && units.last().key != "red:"@ + target {
            let i = choose|i: int|
                0 <= i < units.len() && (#[trigger] units[i]).key == "red:"@ + target;
            assert(rest[i].key == "red:"@ + target);
        }
        if is_frozen(rest, target) {
            let i = choose|i: int|
                0 <= i < rest.len() && (#[trigger] rest[i]).key == "red:"@ + target;
            assert(units[i].key == "red:"@ + target);
        }
    }
}

proof fn the_unit_counts(units: Seq<FrozenUnitModel>, target: Seq<char>, i: int)
    requires
        0 <= i < units.len(),
        units[i].key == "red:"@ + target,
        last_of_its_key(units, i),
    ensures
        decision_for(frozen_decisions(units), target) == Some(
            ReductionDecisionModel {
                target_id: target,
                kind: units[i].kind,
                payload: units[i].frozen_payload,
            },
        ),
    decreases units.len(),
{
    let rest = units.drop_last();
    let n = units.len() - 1;
    frozen_is_decided(rest, target);
    what_a_unit_adds(units, target);
    if i < n {
        assert(units[n].key != units[i].key);
        assert(rest[i] == units[i]);
        assert forall|j: int| i < j < rest.len() implies (#[trigger] rest[j]).key
            != rest[i].key by {
            assert(units[j].key != units[i].key);
        }
        the_unit_counts(rest, target, i);
    }
}

/// What is frozen of a target is what the last unit with its key says.
pub proof fn the_last_unit_counts(units: Seq<FrozenUnitModel>, target: Seq<char>)
    ensures
        by_target(frozen_decisions(units)),
        forall|i: int|
            0 <= i < units.len() && (#[trigger] units[i]).key == "red:"@ + target
                && last_of_its_key(units, i) ==> decision_for(frozen_decisions(units), target)
                == Some(
                ReductionDecisionModel {
                    target_id: target,
                    kind: units[i].kind,
                    payload: units[i].frozen_payload,
                },
            ),
        decision_for(frozen_decisions(units), target) is Some <==> is_frozen(units, target),
{
    frozen_is_decided(units, target);
    assert forall|i: int|
        0 <= i < units.len() && (#[trigger] units[i]).key == "red:"@ + target && last_of_its_key(
            units,
            i,
        ) implies decision_for(frozen_decisions(units), target) == Some(
        ReductionDecisionModel {
            target_id: target,
            kind: units[i].kind,
            payload: units[i].frozen_payload,
        },
    ) by {
        the_unit_counts(units, target, i);
    }
}

proof fn decided_behind(
    s: Seq<ReductionDecisionModel>,
    reductions: Seq<ReductionDecisionModel>,
    target: Seq<char>,
)
    requires
        by_target(s),
    ensures
        by_target(with_decisions(s, reductions)),
        decision_for(s, target) is Some ==> decision_for(with_decisions(s, reductions), target)
            == decision_for(s, target),
        decision_for(s, target) is None ==> forall|i: int|
            0 <= i < reductions.len() && (#[trigger] reductions[i]).target_id == target
                && first_for_target(reductions, i) ==> decision_for(
                with_decisions(s, reductions),
                target,
            ) == Some(reductions[i]),
        decision_for(s, target) is None && !is_decided(reductions, target) ==> decision_for(
            with_decisions(s, reductions),
            target,
        ) is None,
        decision_for(s, target) is None && is_decided(reductions, target) ==> decision_for(
            with_decisions(s, reductions),
            target,
        ) is Some,
    decreases reductions.len(),
{
    if reductions.len() > 0 {
        let rest = reductions.drop_last();
        let n = reductions.len() - 1;
        decided_behind(s, rest, target);
        one_decision_per_target(with_decisions(s, rest), reductions.last(), false, target);
        assert forall|i: int| 0 <= i < rest.len() implies #[trigger] reductions[i]
            == rest[i] by {}
        assert(reductions[n] == reductions.last());
        if is_decided(reductions, target) && reductions.last().target_id != target {
            let i = choose|i: int|
                0 <= i < reductions.len() && (#[trigger] reductions[i]).target_id == target;
            assert(rest[i].target_id == target);
        }
        if is_decided(rest, target) {
            let i = choose|i: int|
                0 <= i < rest.len() && (#[trigger] rest[i]).target_id == target;
            assert(reductions[i].target_id == target);
        }
        assert forall|i: int|
            decision_for(s, target) is None && 0 <= i < reductions.len() && (
            #[trigger] reductions[i]).target_id == target && first_for_target(
                reductions,
                i,
            ) implies decision_for(with_decisions(s, reductions), target) == Some(
            reductions[i],
        ) by {
            if i < n {
                assert(rest[i] == reductions[i]);
                assert forall|j: int| 0 <= j < i implies (#[trigger] rest[j]).target_id
                    != rest[i].target_id by {
                    assert(reductions[j].target_id != reductions[i].target_id);
                }
                assert(first_for_target(rest, i));
            } else {
                if is_decided(rest, target) {
                    let j = choose|j: int|
                        0 <= j < rest.len() && (#[trigger] rest[j]).target_id == target;
                    assert(reductions[j].target_id == reductions[i].target_id);
                }
            }
        }
    }
}

/// In effect of a target is what is frozen of it, and else what is decided first about it.
/// Of a target that is neither frozen nor decided nothing is in effect.
pub proof fn what_is_frozen_comes_first(
    core: CoreStateModel,
    reductions: Seq<ReductionDecisionModel>,
    target: Seq<char>,
)
    ensures
        ({
            let r = decision_for(in_effect(core, reductions), target);
            &&& forall|i: int|
                0 <= i < core.frozen_units.len() && (#[trigger] core.frozen_units[i]).key
                    == "red:"@ + target && last_of_its_key(core.frozen_units, i) ==> r == Some(
                    ReductionDecisionModel {
                        target_id: target,
                        kind: core.frozen_units[i].kind,
                        payload: core.frozen_units[i].frozen_payload,
                    },
                )
            &&& !is_frozen(core.frozen_units, target) ==> forall|i: int|
                0 <= i < reductions.len() && (#[trigger] reductions[i]).target_id == target
                    && first_for_target(reductions, i) ==> r == Some(reductions[i])
            &&& r is Some <==> is_frozen(core.frozen_units, target) || is_decided(
                reductions,
                target,
            )
        }),
{
    the_last_unit_counts(core.frozen_units, target);
    decided_behind(frozen_decisions(core.frozen_units), reductions, target);
}

/// Whether a decision is about a block that the tail shows and nothing is frozen of.
pub open spec fn is_new(
    core: CoreStateModel,
    live: Seq<FlatBlockModel>,
    coverage: Option<u64>,
    target: Seq<char>,
) -> bool {
    &&& !is_frozen(core.frozen_units, target)
    &&& exists|i: int|
        0 <= i < live.len() && (#[trigger] live[i]).id == target && (coverage matches Some(c)
            ==> live[i].ordinal > c)
}

proof fn frozen_targets_are_frozen(units: Seq<FrozenUnitModel>, target: Seq<char>)
    ensures
        frozen_targets(units).contains(target) <==> is_frozen(units, target),
    decreases units.len(),
{
    if units.len() > 0 {
        let rest = units.drop_last();
        let u = units.last();
        frozen_targets_are_frozen(rest, target);
        a_key_names_its_target(u, target);
        assert(units[units.len() - 1] == u);
        let inner = frozen_targets(rest);
        let all = frozen_targets(units);
        if let Some(t) = red_target(u) {
            assert(all == inner.push(t));
            assert(all[inner.len() as int] == t);
            if inner.contains(target) {
                let k = choose|k: int| 0 <= k < inner.len() && inner[k] == target;
                assert(all[k] == target);
            }
            if all.contains(target) && t != target {
                let k = choose|k: int| 0 <= k < all.len() && all[k] == target;
                assert(inner[k] == target);
            }
        }
        if is_frozen(units, target) && u.key != "red:"@ + target {
            let i = choose|i: int|
                0 <= i < units.len() && (#[trigger] units[i]).key == "red:"@ + target;
            assert(rest[i].key == "red:"@ + target);
        }
        if is_frozen(rest, target) {
            let i = choose|i: int|
                0 <= i < rest.len() && (#[trigger] rest[i]).key == "red:"@ + target;
            assert(units[i].key == "red:"@ + target);
        }
    }
}

/// New is, of each target in the tail that is not frozen, the decision that came first, and
/// nothing else.
pub proof fn new_decisions_are_first_decisions(
    core: CoreStateModel,
    live: Seq<FlatBlockModel>,
    coverage: Option<u64>,
    reductions: Seq<ReductionDecisionModel>,
    target: Seq<char>,
)
    ensures
        ({
            let new = new_decisions(core, live, coverage, reductions);
            &&& by_target(new)
            &&& is_new(core, live, coverage, target) ==> forall|i: int|
                0 <= i < reductions.len() && (#[trigger] reductions[i]).target_id == target
                    && first_for_target(reductions, i) ==> decision_for(new, target) == Some(
                    reductions[i],
                )
            &&& decision_for(new, target) is Some <==> is_new(core, live, coverage, target)
                && is_decided(reductions, target)
        }),
    decreases reductions.len(),
{
    let new = new_decisions(core, live, coverage, reductions);
    frozen_targets_are_frozen(core.frozen_units, target);
    if reductions.len() == 0 {
        first_where_first(new, |r: ReductionDecisionModel| r.target_id == target);
    } else {
        let rest = reductions.drop_last();
        let n = reductions.len() - 1;
        let r = reductions.last();
        new_decisions_are_first_decisions(core, live, coverage, rest, target);
        one_decision_per_target(new_decisions(core, live, coverage, rest), r, false, target);
        assert forall|i: int| 0 <= i < rest.len() implies #[trigger] reductions[i]
            == rest[i] by {}
        assert(reductions[n] == r);
        if crate::transform::reductions::tail_has(live, coverage, target) {
            let i = choose|i: int|
                0 <= i < live.len() && (#[trigger] live[i]).id == target && in_tail(
                    live[i].ordinal,
                    coverage,
                );
            assert(live[i].id == target);
        }
        if exists|i: int|
            0 <= i < live.len() && (#[trigger] live[i]).id == target && (coverage matches Some(c)
                ==> live[i].ordinal > c) {
            let i = choose|i: int|
                0 <= i < live.len() && (#[trigger] live[i]).id == target && (
                coverage matches Some(c) ==> live[i].ordinal > c);
            assert(live[i].id == target && in_tail(live[i].ordinal, coverage));
        }
        if is_decided(reductions, target) && r.target_id != target {
            let i = choose|i: int|
                0 <= i < reductions.len() && (#[trigger] reductions[i]).target_id == target;
            assert(rest[i].target_id == target);
        }
        if is_decided(rest, target) {
            let i = choose|i: int|
                0 <= i < rest.len() && (#[trigger] rest[i]).target_id == target;
            assert(reductions[i].target_id == target);
        }
        assert forall|i: int|
            is_new(core, live, coverage, target) && 0 <= i < reductions.len() && (
            #[trigger] reductions[i]).target_id == target && first_for_target(
                reductions,
                i,
            ) implies decision_for(new, target) == Some(reductions[i]) by {
            if i < n {
                assert(rest[i] == reductions[i]);
                assert forall|j: int| 0 <= j < i implies (#[trigger] rest[j]).target_id
                    != rest[i].target_id by {
                    assert(reductions[j].target_id != reductions[i].target_id);
                }
                assert(first_for_target(rest, i));
            } else {
                if is_decided(rest, target) {
                    let j = choose|j: int|
                        0 <= j < rest.len() && (#[trigger] rest[j]).target_id == target;
                    assert(reductions[j].target_id == reductions[i].target_id);
                }
            }
        }
    }
}

/// Whether a block is the last with its id.
pub open spec fn last_of_its_id(live: Seq<FlatBlockModel>, i: int) -> bool {
    forall|j: int| i < j < live.len() ==> (#[trigger] live[j]).id != live[i].id
}

proof fn the_ordinal_is_the_last_blocks(live: Seq<FlatBlockModel>, id: Seq<char>)
    ensures
        forall|i: int|
            0 <= i < live.len() && (#[trigger] live[i]).id == id && last_of_its_id(live, i)
                ==> ordinal_of(live, id) == Some(live[i].ordinal),
        ordinal_of(live, id) is Some <==> exists|i: int|
            0 <= i < live.len() && (#[trigger] live[i]).id == id,
    decreases live.len(),
{
    if live.len() > 0 {
        let rest = live.drop_last();
        let n = live.len() - 1;
        the_ordinal_is_the_last_blocks(rest, id);
        assert forall|i: int| 0 <= i < rest.len() implies #[trigger] live[i] == rest[i] by {}
        assert(live[n] == live.last());
        assert forall|i: int|
            0 <= i < live.len() && (#[trigger] live[i]).id == id && last_of_its_id(
                live,
                i,
            ) implies ordinal_of(live, id) == Some(live[i].ordinal) by {
            if i < n {
                assert(live[n].id != live[i].id);
                assert forall|j: int| i < j < rest.len() implies (#[trigger] rest[j]).id
                    != rest[i].id by {
                    assert(live[j].id != live[i].id);
                }
                assert(last_of_its_id(rest, i));
                assert(rest[i].id == id);
            }
        }
        if exists|i: int| 0 <= i < live.len() && (#[trigger] live[i]).id == id {
            let i = choose|i: int| 0 <= i < live.len() && (#[trigger] live[i]).id == id;
            if i < n {
                assert(rest[i].id == id);
            }
        }
        if exists|i: int| 0 <= i < rest.len() && (#[trigger] rest[i]).id == id {
            let i = choose|i: int| 0 <= i < rest.len() && (#[trigger] rest[i]).id == id;
            assert(live[i].id == id);
        }
    }
}

/// What a fold carries over are the reductions in effect whose block lies behind the new
/// coverage, each as a unit of its own under its target; every other is gone.
pub proof fn survivors_lie_behind_the_coverage(
    effective: Seq<ReductionDecisionModel>,
    live: Seq<FlatBlockModel>,
    coverage: Option<u64>,
    r: ReductionDecisionModel,
    at: int,
)
    requires
        effective.contains(r),
        0 <= at < live.len(),
        live[at].id == r.target_id,
        last_of_its_id(live, at),
    ensures
        ({
            let units = survivors(effective, live, coverage);
            &&& (coverage matches Some(c) ==> live[at].ordinal > c) ==> exists|k: int|
                0 <= k < units.len() && (#[trigger] units[k]).key == "red:"@ + r.target_id
                    && units[k].kind == r.kind && units[k].frozen_payload == r.payload
            &&& (coverage matches Some(c) && live[at].ordinal <= c) ==> !is_frozen(
                units,
                r.target_id,
            )
        }),
{
    assert(RED_KEY_PREFIX@ == "red:"@);
    let p = still_in_tail(live, coverage);
    let kept = keep_where(effective, p);
    let units = survivors(effective, live, coverage);
    the_ordinal_is_the_last_blocks(live, r.target_id);
    kept_is_accepted(effective, p);
    if p(r) {
        accepted_is_kept(effective, p, r);
        let k = choose|k: int| 0 <= k < kept.len() && kept[k] == r;
        assert(units[k].key == "red:"@ + r.target_id);
    } else {
        if is_frozen(units, r.target_id) {
            let k = choose|k: int|
                0 <= k < units.len() && (#[trigger] units[k]).key == "red:"@ + r.target_id;
            same_behind("red:"@, kept[k].target_id, r.target_id);
            assert(p(kept[k]));
        }
    }
}

proof fn same_behind(prefix: Seq<char>, a: Seq<char>, b: Seq<char>)
    requires
        prefix + a == prefix + b,
    ensures
        a == b,
{
    assert(a =~= (prefix + a).skip(prefix.len() as int));
    assert(b =~= (prefix + b).skip(prefix.len() as int));
}

/// Growing coverage takes away the reductions of covered blocks and no other unit.
pub proof fn covered_reductions_go(
    core: CoreStateModel,
    live: Seq<FlatBlockModel>,
    coverage: Option<u64>,
    u: FrozenUnitModel,
)
    requires
        core.frozen_units.contains(u),
    ensures
        ({
            let left = pruned(core, live, coverage);
            &&& left == (CoreStateModel { frozen_units: left.frozen_units, ..core })
            &&& forall|x: FrozenUnitModel| #[trigger]
                left.frozen_units.contains(x) ==> core.frozen_units.contains(x)
            &&& !starts(u.key, "red:"@) ==> left.frozen_units.contains(u)
            &&& forall|t: Seq<char>, at: int|
                #![trigger "red:"@ + t, live[at]]
                u.key == "red:"@ + t && 0 <= at < live.len() && live[at].id == t
                    && last_of_its_id(live, at) ==> (left.frozen_units.contains(u) <==> (
                coverage matches Some(c) ==> live[at].ordinal > c))
        }),
{
    assert(RED_KEY_PREFIX@ == "red:"@);
    let left = pruned(core, live, coverage);
    let p = unit_stays(live, coverage);
    kept_is_accepted(core.frozen_units, p);
    if p(u) {
        accepted_is_kept(core.frozen_units, p, u);
    }
    assert forall|t: Seq<char>, at: int|
        #![trigger "red:"@ + t, live[at]]
        u.key == "red:"@ + t && 0 <= at < live.len() && live[at].id == t && last_of_its_id(
            live,
            at,
        ) implies (left.frozen_units.contains(u) <==> (coverage matches Some(c)
        ==> live[at].ordinal > c)) by {
        a_key_names_its_target(u, t);
        the_ordinal_is_the_last_blocks(live, t);
    }
}

// --- requests -----------------------------------------------------------------------------

/// A conversation is accepted exactly where its block ids differ, no block of it bears a
/// reserved id, and the ordinals of its messages increase.
pub proof fn an_accepted_conversation_is_sound(
    messages: Seq<CkIngressMessageModel>,
    blocks: Seq<FlatBlockModel>,
)
    ensures
        ({
            let distinct = forall|i: int, j: int|
                0 <= i < j < blocks.len() ==> (#[trigger] blocks[i]).id != (#[trigger] blocks[j]).id;
            let reserved = exists|i: int|
                0 <= i < blocks.len() && !(#[trigger] blocks[i]).synthetic && starts(
                    blocks[i].id,
                    "mc_"@,
                );
            let fault = ingress_fault(messages, blocks);
            let live = keep_where(messages, |m: CkIngressMessageModel| !m.ck.meta.synthetic);
            let rising = forall|i: int, j: int|
                0 <= i < j < live.len() ==> (#[trigger] live[i]).ordinal < (
                #[trigger] live[j]).ordinal;
            &&& fault is None <==> distinct && !reserved && rising
            &&& !distinct <==> (fault matches Some(TransformErrorModel::DuplicateBlockId(_)))
            &&& distinct && reserved ==> fault == Some(TransformErrorModel::ReservedId)
            &&& distinct && !reserved && !rising ==> fault == Some(
                TransformErrorModel::OrdinalViolation,
            )
        }),
{
    no_repeat_means_distinct(blocks);
    let p = reserved_block();
    assert(RESERVED_ID_PREFIX@ == "mc_"@);
    first_where_first(blocks, p);
    if let Some(i) = first_where(blocks, p) {
        assert(!blocks[i].synthetic && starts(blocks[i].id, "mc_"@));
    }
    if exists|i: int|
        0 <= i < blocks.len() && !(#[trigger] blocks[i]).synthetic && starts(
            blocks[i].id,
            "mc_"@,
        ) {
        let i = choose|i: int|
            0 <= i < blocks.len() && !(#[trigger] blocks[i]).synthetic && starts(
                blocks[i].id,
                "mc_"@,
            );
        assert(p(blocks[i]));
    }
    assert(crate::transform::ingress::live_message()
        =~= |m: CkIngressMessageModel| !m.ck.meta.synthetic);
}

/// The id that is told of a refused conversation is one that two of its blocks bear.
pub proof fn a_told_repeat_occurs_twice(blocks: Seq<FlatBlockModel>)
    ensures
        crate::transform::ingress::first_repeat(blocks) matches Some(id) ==> exists|i: int, j: int|
            0 <= i < j < blocks.len() && (#[trigger] blocks[i]).id == id && (
            #[trigger] blocks[j]).id == id,
    decreases blocks.len(),
{
    if blocks.len() > 0 {
        let rest = blocks.drop_last();
        let n = blocks.len() - 1;
        a_told_repeat_occurs_twice(rest);
        if let Some(id) = crate::transform::ingress::first_repeat(rest) {
            let (i, j) = choose|i: int, j: int|
                0 <= i < j < rest.len() && (#[trigger] rest[i]).id == id && (
                #[trigger] rest[j]).id == id;
            assert(blocks[i].id == id && blocks[j].id == id);
        } else if crate::transform::ingress::repeats(blocks, n) {
            let j = choose|j: int| 0 <= j < n && (#[trigger] blocks[j]).id == blocks[n].id;
            assert(blocks[j].id == blocks.last().id && blocks[n].id == blocks.last().id);
        }
    }
}

/// Every message that is seen is known afterwards: by what was known of it, or else by what
/// is seen of it first.
pub proof fn seen_messages_are_known(
    stored: Seq<MidIdentityModel>,
    seen: Seq<MidIdentityModel>,
    mid: Seq<char>,
)
    ensures
        ({
            let p = |m: MidIdentityModel| m.mid == mid;
            let now = find_where(with_identities(stored, seen), p);
            now == match find_where(stored, p) {
                Some(known) => Some(known),
                None => find_where(seen, p),
            }
        }),
    decreases seen.len(),
{
    let p = |m: MidIdentityModel| m.mid == mid;
    if seen.len() == 0 {
        first_where_first(seen, p);
    } else {
        let less = seen.drop_last();
        let last = seen.last();
        let rest = with_identities(stored, less);
        seen_messages_are_known(stored, less, mid);
        assert(seen =~= less.push(last));
        found_in_a_longer(less, last, p);
        found_in_a_longer(rest, last, p);
        if last.mid == mid {
            assert(identities_of(last.mid) =~= p);
        }
        first_where_first(rest, identities_of(last.mid));
        first_where_first(rest, p);
    }
}

proof fn found_in_a_longer<M>(s: Seq<M>, x: M, p: spec_fn(M) -> bool)
    ensures
        find_where(s.push(x), p) == (match find_where(s, p) {
            Some(found) => Some(found),
            None => if p(x) {
                Some(x)
            } else {
                None
            },
        }),
{
    let t = s.push(x);
    first_where_first(s, p);
    first_where_first(t, p);
    match first_where(s, p) {
        Some(i) => {
            assert(t[i] == s[i]);
            assert forall|j: int| 0 <= j < i implies !p(#[trigger] t[j]) by {
                assert(t[j] == s[j]);
            }
            first_where_is(t, p, i);
        },
        None => {
            let n = s.len() as int;
            assert forall|j: int| 0 <= j < n implies !p(#[trigger] t[j]) by {
                assert(t[j] == s[j]);
            }
            if p(x) {
                first_where_is(t, p, n);
            } else if let Some(k) = first_where(t, p) {
                assert(k == n);
            }
        },
    }
}

/// A pass goes by the usage that the request reports, and by the last that was kept where it
/// reports none.
pub proof fn reported_usage_counts(request: Option<ModuleUsage>, persisted: Option<ModuleUsage>)
    ensures
        ({
            let used = usage_in_effect(request, persisted);
            &&& (request matches Some(u) ==> (u.current_total_input_tokens > 0
                || u.context_limit_tokens > 0 ==> used == u))
            &&& ((request matches Some(u) ==> u.current_total_input_tokens == 0
                && u.context_limit_tokens == 0) ==> (match persisted {
                Some(u) => used == u,
                None => used.current_total_input_tokens == 0 && used.context_limit_tokens == 0,
            }))
        }),
{
}

/// What the scheduler says of a draining emergency is what the next pass reads of it.
pub proof fn a_latch_is_read_back(meta: ModuleMetaModel, outcome: SchedulerOutcomeModel)
    requires
        outcome.drain_latch.active_since_ms matches Some(ms) ==> ms <= i64::MAX,
    ensures
        latch_of(scheduled_meta(meta, outcome)) == outcome.drain_latch,
        outcome.pass != PassDecision::Defer ==> scheduled_meta(
            meta,
            outcome,
        ).deferred_execute_state is None,
        outcome.pass == PassDecision::Defer ==> match outcome.deferred_execute {
            Some(d) => scheduled_meta(meta, outcome).deferred_execute_state matches Some(kept)
                && kept.reason == d.reason,
            None => scheduled_meta(meta, outcome).deferred_execute_state is None,
        },
{
}

/// Whether a block is a call of a tool that the host is to run and that has no result.
pub open spec fn waits_for_a_result(live: Seq<FlatBlockModel>, i: int) -> bool {
    &&& live[i].kind_tag == "tool_call"@
    &&& !live[i].provider_executed
    &&& live[i].arc_id is Some
    &&& forall|j: int|
        0 <= j < live.len() ==> !((#[trigger] live[j]).kind_tag == "tool_result"@
            && !live[j].provider_executed && live[j].arc_id == live[i].arc_id)
}

proof fn the_newest_is_the_largest(live: Seq<FlatBlockModel>)
    ensures
        newest_assistant(live) matches Some(n) ==> (exists|i: int|
            0 <= i < live.len() && (#[trigger] live[i]).role == "assistant"@ && live[i].ordinal
                == n) && (forall|i: int|
            0 <= i < live.len() && (#[trigger] live[i]).role == "assistant"@ ==> live[i].ordinal
                <= n),
        newest_assistant(live) is None ==> forall|i: int|
            0 <= i < live.len() ==> (#[trigger] live[i]).role != "assistant"@,
    decreases live.len(),
{
    if live.len() > 0 {
        let rest = live.drop_last();
        the_newest_is_the_largest(rest);
        assert(live[live.len() - 1] == live.last());
        assert forall|i: int| 0 <= i < rest.len() implies #[trigger] live[i] == rest[i] by {}
        if let Some(n) = newest_assistant(rest) {
            let i = choose|i: int|
                0 <= i < rest.len() && (#[trigger] rest[i]).role == "assistant"@
                    && rest[i].ordinal == n;
            assert(live[i].role == "assistant"@);
        }
    }
}

/// A conversation is in the middle of a tool use exactly where a call of the assistant's
/// newest message waits for its result.
pub proof fn a_tool_use_waits_in_the_newest_message(live: Seq<FlatBlockModel>)
    ensures
        mid_tool_use(live) <==> exists|i: int|
            0 <= i < live.len() && (#[trigger] live[i]).role == "assistant"@
                && waits_for_a_result(live, i) && forall|j: int|
                0 <= j < live.len() && (#[trigger] live[j]).role == "assistant"@
                    ==> live[j].ordinal <= live[i].ordinal,
{
    the_newest_is_the_largest(live);
    if let Some(newest) = newest_assistant(live) {
        let p = open_call(live, newest);
        first_where_first(live, p);
        if let Some(i) = first_where(live, p) {
            let arc = live[i].arc_id->0;
            first_where_first(live, crate::transform::ingress::arc_completed(arc));
            assert forall|j: int| 0 <= j < live.len() implies !((
            #[trigger] live[j]).kind_tag == "tool_result"@ && !live[j].provider_executed
                && live[j].arc_id == live[i].arc_id) by {
                assert(!crate::transform::ingress::arc_completed(arc)(live[j]));
            }
            assert(waits_for_a_result(live, i));
        }
        if exists|i: int|
            0 <= i < live.len() && (#[trigger] live[i]).role == "assistant"@
                && waits_for_a_result(live, i) && forall|j: int|
                0 <= j < live.len() && (#[trigger] live[j]).role == "assistant"@
                    ==> live[j].ordinal <= live[i].ordinal {
            let i = choose|i: int|
                0 <= i < live.len() && (#[trigger] live[i]).role == "assistant"@
                    && waits_for_a_result(live, i) && forall|j: int|
                    0 <= j < live.len() && (#[trigger] live[j]).role == "assistant"@
                        ==> live[j].ordinal <= live[i].ordinal;
            let arc = live[i].arc_id->0;
            first_where_first(live, crate::transform::ingress::arc_completed(arc));
            let k = choose|k: int|
                0 <= k < live.len() && (#[trigger] live[k]).role == "assistant"@
                    && live[k].ordinal == newest;
            assert(live[k].ordinal <= live[i].ordinal);
            assert(p(live[i]));
        }
    }
}

/// A selection reads each block of the tail, and no other, with its id, its place and its
/// size.
pub proof fn a_selection_reads_the_tail(
    live: Seq<FlatBlockModel>,
    coverage: Option<u64>,
    i: int,
    k: int,
)
    ensures
        0 <= i < live.len() && (coverage matches Some(c) ==> live[i].ordinal > c) ==> exists|n: int|
            0 <= n < tail_items(live, coverage).len() && #[trigger] tail_items(live, coverage)[n]
                == selected_item(live[i]),
        0 <= k < tail_items(live, coverage).len() ==> exists|n: int|
            0 <= n < live.len() && tail_items(live, coverage)[k] == selected_item(
                #[trigger] live[n],
            ) && (coverage matches Some(c) ==> live[n].ordinal > c),
        0 <= i < live.len() ==> {
            let item = selected_item(live[i]);
            &&& item.id == live[i].id
            &&& item.ordinal == live[i].ordinal
            &&& item.arc_id == live[i].arc_id
            &&& item.provider_executed == live[i].provider_executed
            &&& vstd::utf8::encode_utf8(live[i].bytes).len() <= usize::MAX ==> item.byte_size
                == vstd::utf8::encode_utf8(live[i].bytes).len()
            &&& (live[i].wire.kind matches CkKindModel::ToolCall {
                id: _,
                name,
                input,
                provider_executed: _,
            } ==> item.kind == (SelKindModel::ToolCall { name, input }))
            &&& (live[i].wire.kind matches CkKindModel::ToolResult {
                id: _,
                tool_name,
                output: _,
                provider_executed: _,
            } ==> item.kind == (SelKindModel::ToolResult { tool_name }))
            &&& live[i].wire.kind is Text <==> item.kind is Text
            &&& live[i].wire.kind is Reasoning <==> item.kind is Reasoning
            &&& live[i].wire.kind is RedactedReasoning <==> item.kind is RedactedReasoning
            &&& live[i].wire.kind is Media <==> item.kind is Media
            &&& live[i].wire.kind is Opaque <==> item.kind is Opaque
        },
{
    let p = tail_block(coverage);
    let kept = keep_where(live, p);
    let items = tail_items(live, coverage);
    kept_is_accepted(live, p);
    if 0 <= i < live.len() && p(live[i]) {
        accepted_is_kept(live, p, live[i]);
        let n = choose|n: int| 0 <= n < kept.len() && kept[n] == live[i];
        assert(items[n] == selected_item(live[i]));
    }
    if 0 <= k < items.len() {
        assert(p(kept[k]) && live.contains(kept[k]));
        let n = choose|n: int| 0 <= n < live.len() && live[n] == kept[k];
        assert(items[k] == selected_item(live[n]));
    }
}

/// Whether a compartment ends at a block of the conversation.
pub open spec fn ends_in_sight(c: StoredCompartmentModel, live: Seq<FlatBlockModel>) -> bool {
    exists|i: int| 0 <= i < live.len() && (#[trigger] live[i]).id == c.end_message_id
}

/// A cut keeps the compartments up to the first that ends at no block of the conversation:
/// all before it do, and where none does nothing is kept.
pub proof fn a_cut_keeps_what_ends_in_sight(
    compartments: Seq<StoredCompartmentModel>,
    live: Seq<FlatBlockModel>,
)
    ensures
        ({
            let n = surviving_prefix(compartments, live);
            &&& n <= compartments.len()
            &&& forall|i: int| 0 <= i < n ==> ends_in_sight(#[trigger] compartments[i], live)
            &&& n < compartments.len() ==> !ends_in_sight(compartments[n as int], live)
            &&& n == 0 ==> kept_sequence(compartments, live) == -1
            &&& n > 0 ==> kept_sequence(compartments, live) == compartments[n - 1].sequence
        }),
    decreases compartments.len(),
{
    if compartments.len() > 0 {
        let c = compartments[0];
        let p = crate::transform::ingress::block_with_id(c.end_message_id);
        first_where_first(live, p);
        if let Some(i) = first_where(live, p) {
            assert(live[i].id == c.end_message_id);
            let rest = compartments.drop_first();
            a_cut_keeps_what_ends_in_sight(rest, live);
            let n = surviving_prefix(compartments, live);
            assert forall|k: int| 0 <= k < n implies ends_in_sight(
                #[trigger] compartments[k],
                live,
            ) by {
                if k > 0 {
                    assert(rest[k - 1] == compartments[k]);
                }
            }
            if n < compartments.len() {
                assert(rest[n - 1] == compartments[n as int]);
            }
        } else if ends_in_sight(c, live) {
            let i = choose|i: int| 0 <= i < live.len() && (#[trigger] live[i]).id
                == c.end_message_id;
            assert(p(live[i]));
        }
    }
}

/// A request that comes over the wire keeps what it says. Its messages are those it holds,
/// and where it holds none, one for each item of the flat format, under its id and ordinal.
pub proof fn a_request_keeps_what_it_says(wire: TransformRequestWireModel)
    ensures
        ({
            let r = request_of(wire);
            &&& r.kind == wire.kind
            &&& r.v == wire.v
            &&& r.session_id == wire.session_id
            &&& r.render_config == wire.render_config
            &&& r.full_array_fingerprint == wire.full_array_fingerprint
            &&& r.tail_delta == wire.tail_delta
            &&& r.usage == wire.usage
            &&& r.provider_error == wire.provider_error
            &&& (wire.serializer_profile matches Some(p) ==> r.serializer_profile == p)
            &&& (wire.serializer_profile is None ==> r.serializer_profile.len() == 0)
            &&& wire.messages.len() > 0 ==> r.messages == wire.messages
            &&& wire.messages.len() == 0 ==> r.messages.len() == wire.items.len() && forall|i: int|
                0 <= i < wire.items.len() ==> {
                    &&& (#[trigger] r.messages[i]).mid == wire.items[i].id
                    &&& r.messages[i].ordinal == wire.items[i].ordinal
                    &&& r.messages[i].ck.meta.synthetic == wire.items[i].synthetic
                    &&& r.messages[i].ck.role == "user"@
                }
        }),
{
}

// --- the todo pair ------------------------------------------------------------------------

/// Whether a message is shown behind the coverage and no later one is.
pub open spec fn ends_the_tail(
    messages: Seq<CkIngressMessageModel>,
    coverage: Option<u64>,
    i: int,
) -> bool {
    &&& 0 <= i < messages.len()
    &&& !messages[i].ck.meta.synthetic && (coverage matches Some(c) ==> messages[i].ordinal > c)
    &&& forall|j: int|
        i < j < messages.len() ==> (#[trigger] messages[j]).ck.meta.synthetic || (
        coverage matches Some(c) && messages[j].ordinal <= c)
}

proof fn the_tail_ends_there(
    messages: Seq<CkIngressMessageModel>,
    coverage: Option<u64>,
    i: int,
)
    requires
        ends_the_tail(messages, coverage, i),
    ensures
        tail_end(messages, coverage) == Some(messages[i].mid),
    decreases messages.len(),
{
    let n = messages.len() - 1;
    if i < n {
        let rest = messages.drop_last();
        assert(messages[n] == messages.last());
        assert(rest[i] == messages[i]);
        assert forall|j: int| i < j < rest.len() implies (#[trigger] rest[j]).ck.meta.synthetic
            || (coverage matches Some(c) && rest[j].ordinal <= c) by {
            assert(rest[j] == messages[j]);
        }
        the_tail_ends_there(rest, coverage, i);
    }
}

/// A new pair is anchored at the message that ends the tail, a cleared one is gone, and
/// without a decision, or on a pass that does not render anew, the pair stays.
pub proof fn a_decided_pair_is_in_the_record(
    meta: ModuleMetaModel,
    outcome: InjectionOutcomeModel,
    bust: bool,
    old_coverage: Option<u64>,
    shrunk: bool,
    messages: Seq<CkIngressMessageModel>,
    end: int,
)
    requires
        ends_the_tail(messages, meta.coverage_ordinal, end),
    ensures
        ({
            let r = todo_advanced(meta, outcome, bust, old_coverage, shrunk, messages);
            &&& (outcome matches InjectionOutcomeModel::Replace(pair) ==> {
                &&& r matches Ok(after)
                &&& after.synthetic_todo matches Some(kept)
                &&& kept.anchor_mid == Some(messages[end].mid)
                &&& kept == (crate::meta::FrozenSyntheticTodoPairModel {
                    anchor_mid: kept.anchor_mid,
                    ..pair
                })
            })
            &&& outcome is Clear ==> (r matches Ok(after) && after.synthetic_todo is None)
            &&& outcome is Nothing ==> r == Ok::<ModuleMetaModel, TransformErrorModel>(meta)
            &&& outcome is Keep && !bust ==> r == Ok::<ModuleMetaModel, TransformErrorModel>(meta)
            &&& (r matches Ok(after) ==> after == (ModuleMetaModel {
                synthetic_todo: after.synthetic_todo,
                ..meta
            }))
            &&& (r matches Ok(after) ==> (outcome is Keep ==> (
            meta.synthetic_todo matches Some(was) ==> (after.synthetic_todo matches Some(kept)
                && (kept == was || kept == (crate::meta::FrozenSyntheticTodoPairModel {
                anchor_mid: Some(messages[end].mid),
                ..was
            })) ))))
        }),
{
    the_tail_ends_there(messages, meta.coverage_ordinal, end);
}

/// Whether two lists of identities tell a message apart: both know it first by other blocks.
pub open spec fn tells_apart(
    known: Seq<MidIdentityModel>,
    seen: MidIdentityModel,
) -> bool {
    exists|k: int|
        0 <= k < known.len() && (#[trigger] known[k]).mid == seen.mid && known[k].blocks
            != seen.blocks && forall|j: int|
            0 <= j < k ==> (#[trigger] known[j]).mid != seen.mid
}

/// The identities of a conversation are at fault exactly where a message has other blocks
/// than it was first known by, or a frozen block is gone from a message that is there.
pub proof fn blocks_stay_what_they_were(
    meta: ModuleMetaModel,
    projection: FlatProjectionModel,
    core: CoreStateModel,
)
    ensures
        ({
            let fault = identity_fault(meta, projection, core);
            let drift = exists|i: int|
                0 <= i < projection.identity_by_mid.len() && tells_apart(
                    meta.block_identity_by_mid,
                    #[trigger] projection.identity_by_mid[i],
                );
            &&& drift <==> (fault matches Some(TransformErrorModel::IdentityDrift(_)))
            &&& (fault matches Some(TransformErrorModel::FrozenRedTargetVanish(t)) ==> is_frozen(
                core.frozen_units,
                t,
            ) && (forall|i: int|
                0 <= i < projection.blocks.len() ==> !(!(#[trigger] projection.blocks[i]).synthetic
                    && projection.blocks[i].id == t)))
        }),
{
    let seen = projection.identity_by_mid;
    let known = meta.block_identity_by_mid;
    let p = crate::transform::ingress::drifted(known);
    assert forall|m: MidIdentityModel| p(m) == tells_apart(known, m) by {
        let q = identities_of(m.mid);
        first_where_first(known, q);
        if p(m) {
            let k = first_where(known, q)->0;
            assert forall|j: int| 0 <= j < k implies (#[trigger] known[j]).mid != m.mid by {
                assert(!q(known[j]));
            }
            assert(known[k].mid == m.mid);
        }
        if tells_apart(known, m) {
            let k = choose|k: int|
                0 <= k < known.len() && (#[trigger] known[k]).mid == m.mid && known[k].blocks
                    != m.blocks && forall|j: int|
                    0 <= j < k ==> (#[trigger] known[j]).mid != m.mid;
            first_where_is(known, q, k);
        }
    }
    first_where_first(seen, p);
    if let Some(i) = first_where(seen, p) {
        assert(tells_apart(known, seen[i]));
    } else {
        assert forall|i: int| 0 <= i < seen.len() implies !tells_apart(
            known,
            #[trigger] seen[i],
        ) by {
            assert(!p(seen[i]));
        }
        let targets = frozen_targets(core.frozen_units);
        let gone = crate::transform::ingress::vanished(projection);
        first_where_first(targets, gone);
        if let Some(k) = first_where(targets, gone) {
            let t = targets[k];
            assert(targets.contains(t));
            frozen_targets_are_frozen(core.frozen_units, t);
            first_where_first(projection.blocks, live_block_with_id(t));
            assert forall|i: int| 0 <= i < projection.blocks.len() implies !(!(
            #[trigger] projection.blocks[i]).synthetic && projection.blocks[i].id == t) by {
                assert(!live_block_with_id(t)(projection.blocks[i]));
            }
        }
    }
}

} // verus!
