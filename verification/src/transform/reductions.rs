//! Reductions of the tail: blocks that are replaced by a shorter text once, for good.

use vstd::prelude::*;

use crate::meta::{CoreState, CoreStateModel, FrozenUnit, FrozenUnitModel};
use crate::rows::{
    find_row, find_where, first_where, group_views, keep_where, list_names, map_rows, select_rows,
    take_all, take_next, views, Row, RowTest,
};
use crate::text::{
    owned, same_text, starts, strip_prefix, text_before, text_less, text_order_total,
    text_order_transitive,
};
use crate::transform::errors::{TransformError, TransformErrorModel};
use crate::transform::types::{
    FlatBlock, FlatBlockModel, ReductionDecision, ReductionDecisionModel,
};

verus! {

/// How the key of a frozen reduction begins; its target follows.
pub const RED_KEY_PREFIX: &'static str = "red:";

/// The durability of every unit that a pass freezes.
pub const LINEAGE: &'static str = "lineage";

/// Whether a message lies behind the covered history. Nothing is covered where there is no
/// coverage.
pub open spec fn in_tail(ordinal: u64, coverage: Option<u64>) -> bool {
    match coverage {
        Some(c) => ordinal > c,
        None => true,
    }
}

/// Tests whether a message lies behind the covered history.
pub fn is_tail(ordinal: u64, coverage: Option<u64>) -> (r: bool)
    ensures
        r == in_tail(ordinal, coverage),
{
    match coverage {
        Some(c) => ordinal > c,
        None => true,
    }
}

/// The tail begins somewhere and goes on to the end, and more coverage leaves less of it.
pub proof fn the_tail_is_a_suffix(a: u64, b: u64, old: Option<u64>, new: Option<u64>)
    ensures
        in_tail(a, old) && a <= b ==> in_tail(b, old),
        !advanced(new, old) && in_tail(a, new) ==> in_tail(a, old),
{
}

// --- coverage -------------------------------------------------------------------------

/// Whether coverage grew.
pub open spec fn advanced(old: Option<u64>, new: Option<u64>) -> bool {
    match (old, new) {
        (Some(a), Some(b)) => b > a,
        (None, Some(_)) => true,
        _ => false,
    }
}

/// Whether coverage became less.
pub open spec fn shrank(old: Option<u64>, new: Option<u64>) -> bool {
    match (old, new) {
        (Some(a), Some(b)) => b < a,
        (Some(_), None) => true,
        _ => false,
    }
}

/// Tests whether coverage grew.
pub fn coverage_advanced(old: Option<u64>, new: Option<u64>) -> (r: bool)
    ensures
        r == advanced(old, new),
{
    match (old, new) {
        (Some(a), Some(b)) => b > a,
        (None, Some(_)) => true,
        _ => false,
    }
}

/// Tests whether coverage became less.
pub fn coverage_shrank(old: Option<u64>, new: Option<u64>) -> (r: bool)
    ensures
        r == shrank(old, new),
{
    match (old, new) {
        (Some(a), Some(b)) => b < a,
        (Some(_), None) => true,
        _ => false,
    }
}

/// Coverage grew, became less or stayed, and only one of the three.
pub proof fn coverage_moves_one_way(old: Option<u64>, new: Option<u64>)
    ensures
        !(advanced(old, new) && shrank(old, new)),
        !advanced(old, new) && !shrank(old, new) ==> old == new,
        advanced(old, new) == shrank(new, old),
{
}

// --- frozen reductions ----------------------------------------------------------------

/// The target of a frozen reduction.
pub open spec fn red_target(u: FrozenUnitModel) -> Option<Seq<char>> {
    if starts(u.key, RED_KEY_PREFIX@) {
        Some(u.key.skip(RED_KEY_PREFIX@.len() as int))
    } else {
        None
    }
}

/// The unit with a key.
pub open spec fn unit_keyed(key: Seq<char>) -> spec_fn(FrozenUnitModel) -> bool {
    |u: FrozenUnitModel| u.key == key
}

/// The frozen text of a target's reduction.
pub open spec fn frozen_payload(core: CoreStateModel, target: Seq<char>) -> Option<Seq<char>> {
    match find_where(core.frozen_units, unit_keyed(RED_KEY_PREFIX@ + target)) {
        Some(u) => Some(u.frozen_payload),
        None => None,
    }
}

/// The targets of the frozen reductions.
pub open spec fn frozen_targets(units: Seq<FrozenUnitModel>) -> Seq<Seq<char>>
    decreases units.len(),
{
    if units.len() == 0 {
        Seq::empty()
    } else {
        let rest = frozen_targets(units.drop_last());
        match red_target(units.last()) {
            Some(t) => rest.push(t),
            None => rest,
        }
    }
}

/// Accepts the unit with a key.
pub struct UnitKeyed<'a> {
    pub key: &'a str,
}

impl<'a> RowTest<FrozenUnit> for UnitKeyed<'a> {
    open spec fn accepts(&self) -> spec_fn(FrozenUnitModel) -> bool {
        unit_keyed(self.key@)
    }

    fn test(&self, row: &FrozenUnit) -> (r: bool) {
        same_text(&row.key, self.key)
    }
}

/// Reads the frozen text of a target's reduction.
pub fn frozen_red_payload(core: &CoreState, target: &str) -> (r: Option<String>)
    ensures
        crate::rows::opt_view(r) == frozen_payload(core@, target@),
{
    let mut key = owned(RED_KEY_PREFIX);
    key.append(target);
    match find_row(&core.frozen_units, &UnitKeyed { key: &key }) {
        Some(at) => Some(core.frozen_units[at].frozen_payload.clone()),
        None => None,
    }
}

/// Reads the targets of the frozen reductions.
pub fn frozen_red_targets(core: &CoreState) -> (r: Vec<String>)
    ensures
        views(r@) == frozen_targets(core@.frozen_units),
{
    broadcast use group_views;

    let ghost all = core@.frozen_units;
    let mut r: Vec<String> = Vec::new();
    let mut i: usize = 0;
    while i < core.frozen_units.len()
        invariant
            i <= core.frozen_units.len(),
            all == views(core.frozen_units@),
            views(r@) == frozen_targets(all.take(i as int)),
        decreases core.frozen_units.len() - i,
    {
        proof {
            take_next(all, i as int);
        }
        assert(all[i as int] == core.frozen_units@[i as int]@);
        match strip_prefix(&core.frozen_units[i].key, RED_KEY_PREFIX) {
            Some(t) => {
                r.push(owned(t));
            },
            None => {},
        }
        i += 1;
    }
    proof {
        take_all(all);
    }
    r
}

/// A target has a frozen text exactly where it is among the frozen targets.
pub proof fn frozen_targets_have_payloads(core: CoreStateModel, target: Seq<char>)
    ensures
        frozen_targets(core.frozen_units).contains(target) == (frozen_payload(core, target) is Some),
{
    frozen_among(core.frozen_units, target);
}

proof fn frozen_among(units: Seq<FrozenUnitModel>, target: Seq<char>)
    ensures
        frozen_targets(units).contains(target) == (first_where(
            units,
            unit_keyed(RED_KEY_PREFIX@ + target),
        ) is Some),
    decreases units.len(),
{
    let p = unit_keyed(RED_KEY_PREFIX@ + target);
    if units.len() > 0 {
        let rest = units.drop_last();
        let u = units.last();
        frozen_among(rest, target);
        let before = frozen_targets(rest);
        let all = frozen_targets(units);
        match red_target(u) {
            Some(t) => {
                assert(u.key =~= RED_KEY_PREFIX@ + t);
                if t == target {
                    assert(all[all.len() - 1] == target);
                    assert(p(u));
                } else {
                    if p(u) {
                        assert(t =~= target);
                    }
                    if before.contains(target) {
                        let k = choose|k: int| 0 <= k < before.len() && before[k] == target;
                        assert(all[k] == target);
                    }
                    if all.contains(target) {
                        let k = choose|k: int| 0 <= k < all.len() && all[k] == target;
                        assert(k < before.len());
                        assert(before[k] == target);
                    }
                }
            },
            None => {
                if p(u) {
                    assert(RED_KEY_PREFIX@.is_prefix_of(RED_KEY_PREFIX@ + target));
                }
            },
        }
    } else {
        assert(frozen_targets(units).len() == 0);
    }
}

/// The unit that a reduction is frozen as.
pub open spec fn frozen_reduction(r: ReductionDecisionModel) -> FrozenUnitModel {
    FrozenUnitModel {
        key: RED_KEY_PREFIX@ + r.target_id,
        kind: r.kind,
        frozen_payload: r.payload,
        durability_class: LINEAGE@,
        reset_rule: Seq::empty(),
    }
}

/// Freezes a reduction.
pub fn red_unit(r: &ReductionDecision) -> (u: FrozenUnit)
    ensures
        u@ == frozen_reduction(r@),
{
    let mut key = owned(RED_KEY_PREFIX);
    key.append(&r.target_id);
    FrozenUnit {
        key,
        kind: r.kind.clone(),
        frozen_payload: r.payload.clone(),
        durability_class: owned(LINEAGE),
        reset_rule: String::new(),
    }
}

/// Whether a decision contradicts what is frozen.
pub open spec fn contradicts(core: CoreStateModel, r: ReductionDecisionModel) -> bool {
    frozen_payload(core, r.target_id) matches Some(frozen) && frozen != r.payload
}

/// Checks that no decision contradicts what is frozen.
pub fn validate_reduction_monotonicity(core: &CoreState, reductions: &Vec<ReductionDecision>) -> (r:
    Result<(), TransformError>)
    ensures
        match r {
            Ok(_) => forall|i: int|
                0 <= i < reductions@.len() ==> !contradicts(core@, #[trigger] views(reductions@)[i]),
            Err(e) => {
                &&& e@ == TransformErrorModel::ReductionConflict
                &&& exists|i: int|
                    0 <= i < reductions@.len() && contradicts(
                        core@,
                        #[trigger] views(reductions@)[i],
                    )
            },
        },
{
    let ghost all = views(reductions@);
    let mut i: usize = 0;
    while i < reductions.len()
        invariant
            i <= reductions.len(),
            all == views(reductions@),
            forall|j: int| 0 <= j < i ==> !contradicts(core@, #[trigger] all[j]),
        decreases reductions.len() - i,
    {
        assert(all[i as int] == reductions@[i as int]@);
        match frozen_red_payload(core, &reductions[i].target_id) {
            Some(frozen) => {
                if !same_text(&frozen, &reductions[i].payload) {
                    assert(contradicts(core@, all[i as int]));
                    return Err(TransformError::ReductionConflict);
                }
            },
            None => {},
        }
        i += 1;
    }
    Ok(())
}

// --- the tail -------------------------------------------------------------------------

/// A block of the conversation, not one that a pass generated.
pub open spec fn live_block() -> spec_fn(FlatBlockModel) -> bool {
    |b: FlatBlockModel| !b.synthetic
}

/// A block of the tail.
pub open spec fn tail_block(coverage: Option<u64>) -> spec_fn(FlatBlockModel) -> bool {
    |b: FlatBlockModel| in_tail(b.ordinal, coverage)
}

/// Whether a block of the tail has this id.
pub open spec fn tail_has(live: Seq<FlatBlockModel>, coverage: Option<u64>, id: Seq<char>) -> bool {
    exists|i: int|
        0 <= i < live.len() && (#[trigger] live[i]).id == id && in_tail(live[i].ordinal, coverage)
}

/// The ordinal of the last block with this id.
pub open spec fn ordinal_of(live: Seq<FlatBlockModel>, id: Seq<char>) -> Option<u64>
    decreases live.len(),
{
    if live.len() == 0 {
        None
    } else if live.last().id == id {
        Some(live.last().ordinal)
    } else {
        ordinal_of(live.drop_last(), id)
    }
}

fn names_tail(live: &Vec<FlatBlock>, coverage: Option<u64>, id: &str) -> (r: bool)
    ensures
        r == tail_has(views(live@), coverage, id@),
{
    let ghost all = views(live@);
    let mut i: usize = 0;
    while i < live.len()
        invariant
            i <= live.len(),
            all == views(live@),
            forall|j: int|
                0 <= j < i ==> !((#[trigger] all[j]).id == id@ && in_tail(all[j].ordinal, coverage)),
        decreases live.len() - i,
    {
        assert(all[i as int] == live@[i as int]@);
        if same_text(&live[i].id, id) && is_tail(live[i].ordinal, coverage) {
            assert(all[i as int].id == id@);
            return true;
        }
        i += 1;
    }
    false
}

fn find_ordinal(live: &Vec<FlatBlock>, id: &str) -> (r: Option<u64>)
    ensures
        r == ordinal_of(views(live@), id@),
{
    broadcast use group_views;

    let ghost all = views(live@);
    let mut i: usize = live.len();
    proof {
        take_all(all);
    }
    while i > 0
        invariant
            i <= live.len(),
            all == views(live@),
            ordinal_of(all, id@) == ordinal_of(all.take(i as int), id@),
        decreases i,
    {
        i -= 1;
        proof {
            take_next(all, i as int);
        }
        assert(all[i as int] == live@[i as int]@);
        if same_text(&live[i].id, id) {
            return Some(live[i].ordinal);
        }
    }
    None
}

/// A decision that is new: its target lies in the tail and is not frozen yet.
pub open spec fn new_decision(
    core: CoreStateModel,
    live: Seq<FlatBlockModel>,
    coverage: Option<u64>,
    r: ReductionDecisionModel,
) -> bool {
    tail_has(live, coverage, r.target_id) && !frozen_targets(core.frozen_units).contains(r.target_id)
}

/// Whether there is a new decision.
pub open spec fn some_new(
    core: CoreStateModel,
    live: Seq<FlatBlockModel>,
    coverage: Option<u64>,
    reductions: Seq<ReductionDecisionModel>,
) -> bool {
    exists|i: int|
        0 <= i < reductions.len() && new_decision(core, live, coverage, #[trigger] reductions[i])
}

/// Tests whether there is a new decision.
pub fn reductions_pending(
    core: &CoreState,
    reductions: &Vec<ReductionDecision>,
    live: &Vec<FlatBlock>,
    coverage: Option<u64>,
) -> (r: bool)
    ensures
        r == some_new(core@, views(live@), coverage, views(reductions@)),
{
    let frozen = frozen_red_targets(core);
    let ghost all = views(reductions@);
    let mut i: usize = 0;
    while i < reductions.len()
        invariant
            i <= reductions.len(),
            all == views(reductions@),
            views(frozen@) == frozen_targets(core@.frozen_units),
            forall|j: int|
                0 <= j < i ==> !new_decision(core@, views(live@), coverage, #[trigger] all[j]),
        decreases reductions.len() - i,
    {
        assert(all[i as int] == reductions@[i as int]@);
        if names_tail(live, coverage, &reductions[i].target_id) && !list_names(
            &frozen,
            &reductions[i].target_id,
        ) {
            assert(new_decision(core@, views(live@), coverage, all[i as int]));
            return true;
        }
        i += 1;
    }
    false
}

// --- decisions by target --------------------------------------------------------------

/// Decisions by target, each target once.
pub open spec fn by_target(s: Seq<ReductionDecisionModel>) -> bool {
    forall|i: int, j: int|
        0 <= i < j < s.len() ==> text_less(
            (#[trigger] s[i]).target_id,
            (#[trigger] s[j]).target_id,
        )
}

/// The decision for a target.
pub open spec fn decision_for(s: Seq<ReductionDecisionModel>, target: Seq<char>) -> Option<
    ReductionDecisionModel,
> {
    find_where(s, |r: ReductionDecisionModel| r.target_id == target)
}

/// The decisions by target with one more; where its target has one, `replace` tells which
/// stays.
pub open spec fn with_decision(
    s: Seq<ReductionDecisionModel>,
    r: ReductionDecisionModel,
    replace: bool,
) -> Seq<ReductionDecisionModel>
    decreases s.len(),
{
    if s.len() == 0 {
        seq![r]
    } else if s.last().target_id == r.target_id {
        if replace {
            s.drop_last().push(r)
        } else {
            s
        }
    } else if text_less(s.last().target_id, r.target_id) {
        s.push(r)
    } else {
        with_decision(s.drop_last(), r, replace).push(s.last())
    }
}

proof fn with_decision_at(
    s: Seq<ReductionDecisionModel>,
    r: ReductionDecisionModel,
    replace: bool,
    at: int,
)
    requires
        0 <= at <= s.len(),
        forall|j: int| at <= j < s.len() ==> text_less(r.target_id, (#[trigger] s[j]).target_id),
        at > 0 ==> !text_less(r.target_id, s[at - 1].target_id),
    ensures
        with_decision(s, r, replace) == (if at > 0 && s[at - 1].target_id == r.target_id {
            if replace {
                s.update(at - 1, r)
            } else {
                s
            }
        } else {
            s.insert(at, r)
        }),
    decreases s.len(),
{
    if s.len() == 0 {
        assert(s.insert(0, r) =~= seq![r]);
    } else if at == s.len() {
        text_order_total(s.last().target_id, r.target_id);
        if s.last().target_id == r.target_id {
            assert(s.drop_last().push(r) =~= s.update(at - 1, r));
        } else {
            assert(s.insert(at, r) =~= s.push(r));
        }
    } else {
        let last = s.last();
        assert(text_less(r.target_id, s[s.len() - 1].target_id));
        text_order_total(r.target_id, last.target_id);
        let rest = s.drop_last();
        assert forall|j: int| at <= j < rest.len() implies text_less(
            r.target_id,
            (#[trigger] rest[j]).target_id,
        ) by {
            assert(rest[j] == s[j]);
        }
        with_decision_at(rest, r, replace, at);
        if at > 0 && s[at - 1].target_id == r.target_id {
            if replace {
                assert(rest.update(at - 1, r).push(last) =~= s.update(at - 1, r));
            } else {
                assert(rest.push(last) =~= s);
            }
        } else {
            assert(rest.insert(at, r).push(last) =~= s.insert(at, r));
        }
    }
}

/// One more decision keeps the decisions by target, decides its own target and leaves every
/// other target's decision as it was.
pub proof fn one_decision_per_target(
    s: Seq<ReductionDecisionModel>,
    r: ReductionDecisionModel,
    replace: bool,
    target: Seq<char>,
)
    requires
        by_target(s),
    ensures
        by_target(with_decision(s, r, replace)),
        decision_for(with_decision(s, r, replace), target) == (if target != r.target_id {
            decision_for(s, target)
        } else if replace || decision_for(s, target) is None {
            Some(r)
        } else {
            decision_for(s, target)
        }),
    decreases s.len(),
{
    let after = with_decision(s, r, replace);
    let p = |x: ReductionDecisionModel| x.target_id == target;
    if s.len() == 0 {
        assert(after.drop_last() =~= Seq::empty());
        assert(after.last() == r);
        assert(first_where(s, p) is None);
        assert(first_where(after.drop_last(), p) is None);
    } else {
        let last = s.last();
        let rest = s.drop_last();
        text_order_total(last.target_id, r.target_id);
        assert forall|i: int| 0 <= i < rest.len() implies text_less(
            (#[trigger] rest[i]).target_id,
            last.target_id,
        ) by {
            assert(rest[i] == s[i]);
            assert(text_less(s[i].target_id, s[s.len() - 1].target_id));
        }
        assert(by_target(rest)) by {
            assert forall|i: int, j: int| 0 <= i < j < rest.len() implies text_less(
                (#[trigger] rest[i]).target_id,
                (#[trigger] rest[j]).target_id,
            ) by {
                assert(rest[i] == s[i] && rest[j] == s[j]);
            }
        }
        crate::rows::first_where_first(rest, p);
        crate::rows::first_where_first(s, p);
        if last.target_id == r.target_id {
            if replace {
                assert(after.drop_last() =~= rest);
                if target == r.target_id {
                    if first_where(rest, p) is Some {
                        let k = first_where(rest, p)->0;
                        assert(text_less(rest[k].target_id, last.target_id));
                        text_order_total(rest[k].target_id, last.target_id);
                    }
                }
                assert forall|i: int, j: int| 0 <= i < j < after.len() implies text_less(
                    (#[trigger] after[i]).target_id,
                    (#[trigger] after[j]).target_id,
                ) by {
                    if j == after.len() - 1 {
                        assert(after[i] == rest[i]);
                    } else {
                        assert(after[i] == rest[i] && after[j] == rest[j]);
                    }
                }
            }
        } else if text_less(last.target_id, r.target_id) {
            assert(after.drop_last() =~= s);
            assert forall|i: int, j: int| 0 <= i < j < after.len() implies text_less(
                (#[trigger] after[i]).target_id,
                (#[trigger] after[j]).target_id,
            ) by {
                if j == after.len() - 1 {
                    if i < s.len() - 1 {
                        assert(after[i] == rest[i]);
                        text_order_transitive(rest[i].target_id, last.target_id, r.target_id);
                    }
                } else {
                    assert(after[i] == s[i] && after[j] == s[j]);
                }
            }
            if target == r.target_id && first_where(s, p) is Some {
                let k = first_where(s, p)->0;
                if k < rest.len() {
                    assert(s[k] == rest[k]);
                    text_order_transitive(rest[k].target_id, last.target_id, r.target_id);
                    text_order_total(rest[k].target_id, r.target_id);
                }
            }
        } else {
            let inner = with_decision(rest, r, replace);
            one_decision_per_target(rest, r, replace, target);
            assert(after.drop_last() =~= inner);
            assert forall|i: int| 0 <= i < inner.len() implies text_less(
                (#[trigger] inner[i]).target_id,
                last.target_id,
            ) by {
                inner_targets(rest, r, replace, i);
                if inner[i].target_id != r.target_id {
                    let k = choose|k: int|
                        0 <= k < rest.len() && (#[trigger] rest[k]).target_id == inner[i].target_id;
                    assert(text_less(rest[k].target_id, last.target_id));
                }
            }
            assert forall|i: int, j: int| 0 <= i < j < after.len() implies text_less(
                (#[trigger] after[i]).target_id,
                (#[trigger] after[j]).target_id,
            ) by {
                if j == after.len() - 1 {
                    assert(after[i] == inner[i]);
                } else {
                    assert(after[i] == inner[i] && after[j] == inner[j]);
                }
            }
            crate::rows::first_where_first(inner, p);
            if first_where(inner, p) is Some {
                let k = first_where(inner, p)->0;
                assert(after[k] == inner[k]);
            }
        }
    }
}

proof fn inner_targets(
    s: Seq<ReductionDecisionModel>,
    r: ReductionDecisionModel,
    replace: bool,
    i: int,
)
    requires
        0 <= i < with_decision(s, r, replace).len(),
    ensures
        with_decision(s, r, replace)[i].target_id == r.target_id || exists|k: int|
            0 <= k < s.len() && (#[trigger] s[k]).target_id == with_decision(
                s,
                r,
                replace,
            )[i].target_id,
    decreases s.len(),
{
    let after = with_decision(s, r, replace);
    if s.len() > 0 {
        let last = s.last();
        let rest = s.drop_last();
        if last.target_id == r.target_id {
            if replace {
                if i < rest.len() {
                    assert(after[i] == s[i]);
                }
            } else {
                assert(after[i] == s[i]);
            }
        } else if text_less(last.target_id, r.target_id) {
            if i < s.len() {
                assert(after[i] == s[i]);
            }
        } else {
            let inner = with_decision(rest, r, replace);
            if i < inner.len() {
                inner_targets(rest, r, replace, i);
                if inner[i].target_id != r.target_id {
                    let k = choose|k: int|
                        0 <= k < rest.len() && (#[trigger] rest[k]).target_id == inner[i].target_id;
                    assert(s[k] == rest[k]);
                }
            } else {
                assert(after[i] == s[s.len() - 1]);
            }
        }
    }
}

/// Puts a decision.
fn put_decision(s: &mut Vec<ReductionDecision>, r: ReductionDecision, replace: bool)
    ensures
        views(final(s)@) == with_decision(views(old(s)@), r@, replace),
{
    broadcast use group_views;

    let ghost all = views(s@);
    let mut at: usize = s.len();
    while at > 0 && text_before(&r.target_id, &s[at - 1].target_id)
        invariant
            at <= s.len(),
            all == views(s@),
            s@ == old(s)@,
            forall|j: int|
                at <= j < all.len() ==> text_less(r@.target_id, (#[trigger] all[j]).target_id),
        decreases at,
    {
        assert(all[at - 1] == s@[at - 1]@);
        at -= 1;
    }
    proof {
        if at > 0 {
            assert(all[at - 1] == s@[at - 1]@);
        }
        with_decision_at(all, r@, replace, at as int);
    }
    if at > 0 && same_text(&s[at - 1].target_id, &r.target_id) {
        if replace {
            s.set(at - 1, r);
        }
    } else {
        s.insert(at, r);
    }
}

/// The new decisions by target; of two for one target the first stays.
pub open spec fn new_decisions(
    core: CoreStateModel,
    live: Seq<FlatBlockModel>,
    coverage: Option<u64>,
    reductions: Seq<ReductionDecisionModel>,
) -> Seq<ReductionDecisionModel>
    decreases reductions.len(),
{
    if reductions.len() == 0 {
        Seq::empty()
    } else {
        let rest = new_decisions(core, live, coverage, reductions.drop_last());
        if new_decision(core, live, coverage, reductions.last()) {
            with_decision(rest, reductions.last(), false)
        } else {
            rest
        }
    }
}

/// Reductions as the units that they are frozen as.
pub open spec fn frozen_reductions(s: Seq<ReductionDecisionModel>) -> Seq<FrozenUnitModel> {
    s.map_values(|r: ReductionDecisionModel| frozen_reduction(r))
}

/// Freezes the new decisions, by target.
pub fn new_reduction_units(
    core: &CoreState,
    reductions: &Vec<ReductionDecision>,
    live: &Vec<FlatBlock>,
    coverage: Option<u64>,
) -> (r: Vec<FrozenUnit>)
    ensures
        views(r@) == frozen_reductions(
            new_decisions(core@, views(live@), coverage, views(reductions@)),
        ),
{
    broadcast use group_views;

    let frozen = frozen_red_targets(core);
    let ghost all = views(reductions@);
    let mut chosen: Vec<ReductionDecision> = Vec::new();
    let mut i: usize = 0;
    while i < reductions.len()
        invariant
            i <= reductions.len(),
            all == views(reductions@),
            views(frozen@) == frozen_targets(core@.frozen_units),
            views(chosen@) == new_decisions(core@, views(live@), coverage, all.take(i as int)),
        decreases reductions.len() - i,
    {
        proof {
            take_next(all, i as int);
        }
        assert(all[i as int] == reductions@[i as int]@);
        if names_tail(live, coverage, &reductions[i].target_id) && !list_names(
            &frozen,
            &reductions[i].target_id,
        ) {
            put_decision(&mut chosen, reductions[i].dup(), false);
        }
        i += 1;
    }
    proof {
        take_all(all);
    }
    map_rows(&chosen, red_unit, Ghost(|r: ReductionDecisionModel| frozen_reduction(r)))
}

/// The frozen reductions by target.
pub open spec fn frozen_decisions(units: Seq<FrozenUnitModel>) -> Seq<ReductionDecisionModel>
    decreases units.len(),
{
    if units.len() == 0 {
        Seq::empty()
    } else {
        let rest = frozen_decisions(units.drop_last());
        let u = units.last();
        match red_target(u) {
            Some(t) => with_decision(
                rest,
                ReductionDecisionModel {
                    target_id: t,
                    kind: u.kind,
                    payload: u.frozen_payload,
                },
                true,
            ),
            None => rest,
        }
    }
}

/// Decisions by target with more of them; what was decided stays.
pub open spec fn with_decisions(
    s: Seq<ReductionDecisionModel>,
    reductions: Seq<ReductionDecisionModel>,
) -> Seq<ReductionDecisionModel>
    decreases reductions.len(),
{
    if reductions.len() == 0 {
        s
    } else {
        with_decision(with_decisions(s, reductions.drop_last()), reductions.last(), false)
    }
}

/// The reductions in effect: what is frozen, and what is decided where nothing is.
pub open spec fn in_effect(core: CoreStateModel, reductions: Seq<ReductionDecisionModel>) -> Seq<
    ReductionDecisionModel,
> {
    with_decisions(frozen_decisions(core.frozen_units), reductions)
}

/// A frozen reduction stays in effect as it is, whatever is decided.
pub proof fn frozen_reductions_stay(
    core: CoreStateModel,
    reductions: Seq<ReductionDecisionModel>,
    target: Seq<char>,
)
    ensures
        by_target(in_effect(core, reductions)),
        decision_for(frozen_decisions(core.frozen_units), target) is Some ==> decision_for(
            in_effect(core, reductions),
            target,
        ) == decision_for(frozen_decisions(core.frozen_units), target),
{
    frozen_decisions_by_target(core.frozen_units);
    decisions_stay(frozen_decisions(core.frozen_units), reductions, target);
}

proof fn frozen_decisions_by_target(units: Seq<FrozenUnitModel>)
    ensures
        by_target(frozen_decisions(units)),
    decreases units.len(),
{
    if units.len() > 0 {
        frozen_decisions_by_target(units.drop_last());
        let u = units.last();
        match red_target(u) {
            Some(t) => {
                one_decision_per_target(
                    frozen_decisions(units.drop_last()),
                    ReductionDecisionModel {
                        target_id: t,
                        kind: u.kind,
                        payload: u.frozen_payload,
                    },
                    true,
                    t,
                );
            },
            None => {},
        }
    }
}

proof fn decisions_stay(
    s: Seq<ReductionDecisionModel>,
    reductions: Seq<ReductionDecisionModel>,
    target: Seq<char>,
)
    requires
        by_target(s),
    ensures
        by_target(with_decisions(s, reductions)),
        decision_for(s, target) is Some ==> decision_for(with_decisions(s, reductions), target)
            == decision_for(s, target),
    decreases reductions.len(),
{
    if reductions.len() > 0 {
        decisions_stay(s, reductions.drop_last(), target);
        one_decision_per_target(
            with_decisions(s, reductions.drop_last()),
            reductions.last(),
            false,
            target,
        );
    }
}

/// Reads the reductions in effect, by target.
pub fn effective_reductions(core: &CoreState, reductions: &Vec<ReductionDecision>) -> (r: Vec<
    ReductionDecision,
>)
    ensures
        views(r@) == in_effect(core@, views(reductions@)),
{
    broadcast use group_views;

    let ghost units = core@.frozen_units;
    let mut r: Vec<ReductionDecision> = Vec::new();
    let mut i: usize = 0;
    while i < core.frozen_units.len()
        invariant
            i <= core.frozen_units.len(),
            units == views(core.frozen_units@),
            views(r@) == frozen_decisions(units.take(i as int)),
        decreases core.frozen_units.len() - i,
    {
        proof {
            take_next(units, i as int);
        }
        let u = &core.frozen_units[i];
        assert(units[i as int] == u@);
        match strip_prefix(&u.key, RED_KEY_PREFIX) {
            Some(t) => {
                put_decision(
                    &mut r,
                    ReductionDecision {
                        target_id: owned(t),
                        kind: u.kind.clone(),
                        payload: u.frozen_payload.clone(),
                    },
                    true,
                );
            },
            None => {},
        }
        i += 1;
    }
    proof {
        take_all(units);
    }
    let ghost all = views(reductions@);
    let ghost frozen = views(r@);
    let mut k: usize = 0;
    while k < reductions.len()
        invariant
            k <= reductions.len(),
            all == views(reductions@),
            views(r@) == with_decisions(frozen, all.take(k as int)),
        decreases reductions.len() - k,
    {
        proof {
            take_next(all, k as int);
        }
        assert(all[k as int] == reductions@[k as int]@);
        put_decision(&mut r, reductions[k].dup(), false);
        k += 1;
    }
    proof {
        take_all(all);
    }
    r
}

// --- what survives a fold -------------------------------------------------------------

/// A reduction whose target is still in the tail.
pub open spec fn still_in_tail(live: Seq<FlatBlockModel>, coverage: Option<u64>) -> spec_fn(
    ReductionDecisionModel,
) -> bool {
    |r: ReductionDecisionModel|
        ordinal_of(live, r.target_id) matches Some(n) && in_tail(n, coverage)
}

/// Accepts reductions whose target is still in the tail.
pub struct StillInTail<'a> {
    pub live: &'a Vec<FlatBlock>,
    pub coverage: Option<u64>,
}

impl<'a> RowTest<ReductionDecision> for StillInTail<'a> {
    open spec fn accepts(&self) -> spec_fn(ReductionDecisionModel) -> bool {
        still_in_tail(views(self.live@), self.coverage)
    }

    fn test(&self, row: &ReductionDecision) -> (r: bool) {
        match find_ordinal(self.live, &row.target_id) {
            Some(n) => is_tail(n, self.coverage),
            None => false,
        }
    }
}

/// The units that survive a fold: the reductions whose target is still in the tail.
pub open spec fn survivors(
    effective: Seq<ReductionDecisionModel>,
    live: Seq<FlatBlockModel>,
    coverage: Option<u64>,
) -> Seq<FrozenUnitModel> {
    frozen_reductions(keep_where(effective, still_in_tail(live, coverage)))
}

/// Freezes the reductions that survive a fold, by target.
pub fn surviving_red_units(
    effective: &Vec<ReductionDecision>,
    live: &Vec<FlatBlock>,
    new_coverage: Option<u64>,
) -> (r: Vec<FrozenUnit>)
    ensures
        views(r@) == survivors(views(effective@), views(live@), new_coverage),
{
    let kept = select_rows(effective, &StillInTail { live, coverage: new_coverage });
    map_rows(&kept, red_unit, Ghost(|r: ReductionDecisionModel| frozen_reduction(r)))
}

/// A unit that stays when coverage grows: any but a reduction whose target became covered.
pub open spec fn unit_stays(live: Seq<FlatBlockModel>, coverage: Option<u64>) -> spec_fn(
    FrozenUnitModel,
) -> bool {
    |u: FrozenUnitModel|
        match red_target(u) {
            Some(t) => match ordinal_of(live, t) {
                Some(n) => in_tail(n, coverage),
                None => true,
            },
            None => true,
        }
}

/// Accepts units that stay when coverage grows.
pub struct UnitStays<'a> {
    pub live: &'a Vec<FlatBlock>,
    pub coverage: Option<u64>,
}

impl<'a> RowTest<FrozenUnit> for UnitStays<'a> {
    open spec fn accepts(&self) -> spec_fn(FrozenUnitModel) -> bool {
        unit_stays(views(self.live@), self.coverage)
    }

    fn test(&self, row: &FrozenUnit) -> (r: bool) {
        match strip_prefix(&row.key, RED_KEY_PREFIX) {
            Some(t) => match find_ordinal(self.live, t) {
                Some(n) => is_tail(n, self.coverage),
                None => true,
            },
            None => true,
        }
    }
}

/// Drops the frozen reductions whose target became covered.
pub fn prune_covered_red_units(
    core: &mut CoreState,
    live: &Vec<FlatBlock>,
    new_coverage: Option<u64>,
)
    ensures
        final(core)@ == pruned(old(core)@, views(live@), new_coverage),
{
    core.frozen_units = select_rows(
        &core.frozen_units,
        &UnitStays { live, coverage: new_coverage },
    );
}

/// The cache without the reductions whose target became covered.
pub open spec fn pruned(
    core: CoreStateModel,
    live: Seq<FlatBlockModel>,
    coverage: Option<u64>,
) -> CoreStateModel {
    CoreStateModel {
        frozen_units: keep_where(core.frozen_units, unit_stays(live, coverage)),
        ..core
    }
}

} // verus!
