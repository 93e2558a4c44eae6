//! What a pass takes in of a request and of the scheduler, and keeps.

use vstd::prelude::*;

use crate::meta::{MidIdentityModel, ModuleMetaModel, ModuleUsage};
use crate::rows::{find_where, first_where, first_where_first, take_all, take_next};
use crate::transform::ingress::{
    drifted, identities_of, identities_stay, ingress_meta, scheduled_meta, with_identities,
};
use crate::transform::pass::{work_begun, PassStartModel};
use crate::transform::types::{FlatProjectionModel, PassPlanModel, SchedulerOutcomeModel};

verus! {

// --- identities ------------------------------------------------------------------------

/// Whether no message occurs twice among identities.
pub open spec fn mids_differ(seen: Seq<MidIdentityModel>) -> bool {
    forall|i: int, j: int|
        0 <= i < seen.len() && 0 <= j < seen.len() && i != j ==> (#[trigger] seen[i]).mid != (
        #[trigger] seen[j]).mid
}

proof fn known_afterwards(stored: Seq<MidIdentityModel>, seen: Seq<MidIdentityModel>, i: int)
    requires
        0 <= i < seen.len(),
    ensures
        first_where(with_identities(stored, seen), identities_of(seen[i].mid)) is Some,
    decreases seen.len(),
{
    let rest = with_identities(stored, seen.drop_last());
    let p = identities_of(seen[i].mid);
    if i < seen.len() - 1 {
        known_afterwards(stored, seen.drop_last(), i);
        assert(rest.push(seen.last()).drop_last() =~= rest);
    } else {
        assert(rest.push(seen.last()).drop_last() =~= rest);
        assert(p(seen.last()));
    }
}

proof fn nothing_new(stored: Seq<MidIdentityModel>, seen: Seq<MidIdentityModel>)
    requires
        forall|i: int|
            0 <= i < seen.len() ==> first_where(stored, identities_of((#[trigger] seen[i]).mid))
                is Some,
    ensures
        with_identities(stored, seen) == stored,
    decreases seen.len(),
{
    if seen.len() > 0 {
        let rest = seen.drop_last();
        assert forall|i: int| 0 <= i < rest.len() implies first_where(
            stored,
            identities_of((#[trigger] rest[i]).mid),
        ) is Some by {
            assert(rest[i] == seen[i]);
        }
        nothing_new(stored, rest);
        assert(seen[seen.len() - 1] == seen.last());
    }
}

proof fn unseen_stays_unknown(
    stored: Seq<MidIdentityModel>,
    seen: Seq<MidIdentityModel>,
    n: int,
    mid: Seq<char>,
)
    requires
        0 <= n <= seen.len(),
        first_where(stored, identities_of(mid)) is None,
        forall|j: int| 0 <= j < n ==> (#[trigger] seen[j]).mid != mid,
    ensures
        first_where(with_identities(stored, seen.take(n)), identities_of(mid)) is None,
    decreases n,
{
    if n > 0 {
        unseen_stays_unknown(stored, seen, n - 1, mid);
        take_next(seen, n - 1);
        let rest = with_identities(stored, seen.take(n - 1));
        assert(rest.push(seen[n - 1]).drop_last() =~= rest);
        assert(!identities_of(mid)(seen[n - 1]));
    }
}

proof fn new_identities_are_kept(
    stored: Seq<MidIdentityModel>,
    seen: Seq<MidIdentityModel>,
    n: int,
    i: int,
)
    requires
        mids_differ(seen),
        0 <= i < n <= seen.len(),
        first_where(stored, identities_of(seen[i].mid)) is None,
    ensures
        find_where(with_identities(stored, seen.take(n)), identities_of(seen[i].mid)) == Some(
            seen[i],
        ),
    decreases n,
{
    let mid = seen[i].mid;
    let p = identities_of(mid);
    take_next(seen, n - 1);
    let rest = with_identities(stored, seen.take(n - 1));
    assert(rest.push(seen[n - 1]).drop_last() =~= rest);
    if i < n - 1 {
        new_identities_are_kept(stored, seen, n - 1, i);
        first_where_first(rest, p);
    } else {
        unseen_stays_unknown(stored, seen, n - 1, mid);
        assert(p(seen[n - 1]));
    }
}

proof fn still_undrifted(stored: Seq<MidIdentityModel>, seen: Seq<MidIdentityModel>)
    requires
        mids_differ(seen),
        find_where(seen, drifted(stored)) is None,
    ensures
        find_where(seen, drifted(with_identities(stored, seen))) is None,
{
    let after = with_identities(stored, seen);
    let before_p = drifted(stored);
    let p = drifted(after);
    first_where_first(seen, before_p);
    first_where_first(seen, p);
    if let Some(j) = first_where(seen, p) {
        let mid = seen[j].mid;
        assert(!before_p(seen[j]));
        assert(p(seen[j]));
        if find_where(stored, identities_of(mid)) is Some {
            identities_stay(stored, seen, mid);
        } else {
            take_all(seen);
            new_identities_are_kept(stored, seen, seen.len() as int, j);
        }
    }
}

// --- what a pass has taken in ----------------------------------------------------------

/// Whether a record holds what a request and a decision of the scheduler brought, so that
/// the same request and decision change nothing in it.
#[verifier::opaque]
pub open spec fn absorbed(
    meta: ModuleMetaModel,
    usage: Option<ModuleUsage>,
    projection: FlatProjectionModel,
    outcome: SchedulerOutcomeModel,
) -> bool {
    &&& ingress_meta(meta, usage, projection) == meta
    &&& scheduled_meta(meta, outcome) == meta
    &&& mids_differ(projection.identity_by_mid) ==> find_where(
        projection.identity_by_mid,
        drifted(meta.block_identity_by_mid),
    ) is None
}

/// Whether two records hold the same of requests and of the scheduler's decisions.
#[verifier::opaque]
pub open spec fn same_intake(a: ModuleMetaModel, b: ModuleMetaModel) -> bool {
    &&& a.block_identity_by_mid == b.block_identity_by_mid
    &&& a.last_usage == b.last_usage
    &&& a.deferred_execute_state == b.deferred_execute_state
    &&& a.emergency_drain_active == b.emergency_drain_active
    &&& a.emergency_drain_entered_at_ms == b.emergency_drain_entered_at_ms
}

pub(crate) proof fn absorbed_stays(
    a: ModuleMetaModel,
    b: ModuleMetaModel,
    usage: Option<ModuleUsage>,
    projection: FlatProjectionModel,
    outcome: SchedulerOutcomeModel,
)
    requires
        absorbed(a, usage, projection, outcome),
        same_intake(a, b),
    ensures
        absorbed(b, usage, projection, outcome),
{
    reveal(absorbed);
    reveal(same_intake);
    let x = ingress_meta(a, usage, projection);
    let y = ingress_meta(b, usage, projection);
    assert(x.block_identity_by_mid == y.block_identity_by_mid);
    assert(x.last_usage == y.last_usage);
}

pub(crate) proof fn work_absorbs(
    start: PassStartModel,
    usage: Option<ModuleUsage>,
    projection: FlatProjectionModel,
    outcome: SchedulerOutcomeModel,
    plan: PassPlanModel,
    captured: Option<Seq<char>>,
    m1_digest: u64,
)
    requires
        find_where(projection.identity_by_mid, drifted(start.meta.block_identity_by_mid)) is None,
    ensures
        ({
            let work = work_begun(start, usage, projection, outcome, plan, captured, m1_digest);
            &&& absorbed(work.meta, usage, projection, outcome)
            &&& work.meta.initialized == start.meta.initialized
            &&& work.meta.last_render_config == start.meta.last_render_config
        }),
{
    reveal(work_begun);
    reveal(absorbed);
    let stored = start.meta.block_identity_by_mid;
    let seen = projection.identity_by_mid;
    let after = with_identities(stored, seen);
    assert forall|i: int| 0 <= i < seen.len() implies first_where(
        after,
        identities_of((#[trigger] seen[i]).mid),
    ) is Some by {
        known_afterwards(stored, seen, i);
    }
    nothing_new(after, seen);
    if mids_differ(seen) {
        still_undrifted(stored, seen);
    }
}

} // verus!
