//! What the queue of drops is for.

use vstd::prelude::*;

use crate::rows::{of_session, of_session_concat, of_session_push, KeyedModel};
use crate::store::McStoreModel;
use crate::store::drops::{
    append_outcome, command_known, drop_targets, fresh_targets, ledger_commands, queued_rows,
    targets_to_queue, with_drops, without_drops,
};
use crate::store::records::{LedgerRowModel, PendingAgentDropModel};
use crate::text::trimmed;

verus! {

/// Whether a session's queue holds a target.
pub open spec fn is_queued(s: McStoreModel, session: Seq<char>, target: Seq<char>) -> bool {
    exists|i: int|
        0 <= i < of_session(s.drops, session).len() && (#[trigger] of_session(
            s.drops,
            session,
        )[i]).target_id == target
}

proof fn fresh_targets_are_right(queued: Seq<Seq<char>>, requested: Seq<Seq<char>>)
    ensures
        ({
            let fresh = fresh_targets(queued, requested);
            &&& forall|i: int|
                0 <= i < requested.len() && trimmed(#[trigger] requested[i]).len() > 0
                    ==> queued.contains(trimmed(requested[i])) || fresh.contains(
                    trimmed(requested[i]),
                )
            &&& forall|k: int|
                0 <= k < fresh.len() ==> (#[trigger] fresh[k]).len() > 0 && !queued.contains(
                    fresh[k],
                ) && exists|i: int| 0 <= i < requested.len() && trimmed(#[trigger] requested[i])
                    == fresh[k]
            &&& fresh.no_duplicates()
        }),
    decreases requested.len(),
{
    let fresh = fresh_targets(queued, requested);
    if requested.len() > 0 {
        let rest = requested.drop_last();
        let less = fresh_targets(queued, rest);
        let last = trimmed(requested.last());
        fresh_targets_are_right(queued, rest);
        assert(requested[requested.len() - 1] == requested.last());
        assert forall|i: int|
            0 <= i < requested.len() && trimmed(#[trigger] requested[i]).len() > 0 implies
            queued.contains(trimmed(requested[i])) || fresh.contains(trimmed(requested[i])) by {
            let t = trimmed(requested[i]);
            if i < rest.len() {
                assert(rest[i] == requested[i]);
            } else if !queued.contains(t) && !less.contains(t) {
                assert(fresh[fresh.len() - 1] == t);
            }
            if less.contains(t) {
                let k = choose|k: int| 0 <= k < less.len() && less[k] == t;
                assert(fresh[k] == t);
            }
        }
        assert forall|k: int| 0 <= k < fresh.len() implies (#[trigger] fresh[k]).len() > 0
            && !queued.contains(fresh[k]) && exists|i: int|
            0 <= i < requested.len() && trimmed(#[trigger] requested[i]) == fresh[k] by {
            if k < less.len() {
                assert(less[k] == fresh[k]);
                let i = choose|i: int| 0 <= i < rest.len() && trimmed(#[trigger] rest[i]) == less[k];
                assert(requested[i] == rest[i]);
            } else {
                assert(trimmed(requested[requested.len() - 1]) == fresh[k]);
            }
        }
        assert forall|a: int, b: int|
            0 <= a < fresh.len() && 0 <= b < fresh.len() && a != b implies fresh[a] != fresh[b] by {
            if fresh.len() > less.len() && (a == less.len() || b == less.len()) {
                let o = if a == less.len() { b } else { a };
                assert(less.contains(less[o]));
            } else {
                assert(less[a] != less[b]);
            }
        }
    }
}

proof fn queued_rows_of(
    s: McStoreModel,
    session: Seq<char>,
    targets: Seq<Seq<char>>,
    at_ms: i64,
    other: Seq<char>,
)
    ensures
        ({
            let new = queued_rows(session, targets, s.last_drop_id, at_ms);
            of_session(new, other) == (if other == session {
                new.map_values(|k: KeyedModel<PendingAgentDropModel>| k.row)
            } else {
                Seq::empty()
            })
        }),
    decreases targets.len(),
{
    let new = queued_rows(session, targets, s.last_drop_id, at_ms);
    let rows = new.map_values(|k: KeyedModel<PendingAgentDropModel>| k.row);
    if targets.len() > 0 {
        let less = targets.drop_last();
        queued_rows_of(s, session, less, at_ms, other);
        assert(new.drop_last() =~= queued_rows(session, less, s.last_drop_id, at_ms));
        assert(new.drop_last().push(new.last()) =~= new);
        of_session_push(new.drop_last(), new.last(), other);
        assert(rows =~= new.drop_last().map_values(
            |k: KeyedModel<PendingAgentDropModel>| k.row,
        ).push(new.last().row));
    } else {
        assert(new =~= Seq::empty());
        assert(rows =~= Seq::empty());
    }
}

/// A request that is no repeat queues each of its targets that is not blank, unless the queue
/// holds it already: afterwards the session's queue holds them all, behind those that it held,
/// with numbers of their own. It adds no target twice and none that was not asked for, tells
/// how many it added, and its command is known from then on. The queues of other sessions
/// stay.
pub proof fn every_target_is_queued(
    s: McStoreModel,
    session: Seq<char>,
    command: Option<Seq<char>>,
    requested: Seq<Seq<char>>,
    at_ms: i64,
    other: Seq<char>,
)
    requires
        append_outcome(s, session, command, requested, at_ms) is Ok,
        !command_known(s, session, command),
        requested.len() <= u64::MAX,
    ensures
        ({
            let (outcome, after) = append_outcome(s, session, command, requested, at_ms)->Ok_0;
            let was = of_session(s.drops, session);
            let now = of_session(after.drops, session);
            &&& !outcome.duplicate
            &&& outcome.queued == now.len() - was.len()
            &&& forall|i: int|
                0 <= i < requested.len() && trimmed(#[trigger] requested[i]).len() > 0 ==> is_queued(
                    after,
                    session,
                    trimmed(requested[i]),
                )
            &&& was.is_prefix_of(now)
            &&& forall|k: int|
                was.len() <= k < now.len() ==> {
                    let d = #[trigger] now[k];
                    &&& d.target_id.len() > 0
                    &&& !is_queued(s, session, d.target_id)
                    &&& d.id == s.last_drop_id + 1 + (k - was.len())
                    &&& d.queued_at_ms == at_ms
                    &&& exists|i: int|
                        0 <= i < requested.len() && trimmed(#[trigger] requested[i]) == d.target_id
                }
            &&& forall|j: int, k: int|
                was.len() <= j < k < now.len() ==> (#[trigger] now[j]).target_id != (
                #[trigger] now[k]).target_id
            &&& command is Some ==> command_known(after, session, command)
            &&& other != session ==> of_session(after.drops, other) == of_session(s.drops, other)
                && of_session(after.ledger, other) == of_session(s.ledger, other)
        }),
{
    let after = with_drops(s, session, command, requested, at_ms);
    let targets = targets_to_queue(s, session, requested);
    let was = of_session(s.drops, session);
    let queued = drop_targets(was);
    let new = queued_rows(session, targets, s.last_drop_id, at_ms);
    let now = of_session(after.drops, session);
    fresh_targets_are_right(queued, requested);
    crate::store::drops::fresh_targets_bounded(queued, requested);
    of_session_concat(s.drops, new, session);
    queued_rows_of(s, session, targets, at_ms, session);
    let rows = new.map_values(|k: KeyedModel<PendingAgentDropModel>| k.row);
    assert(now == was + rows);
    assert(was =~= now.subrange(0, was.len() as int));
    assert forall|i: int|
        0 <= i < requested.len() && trimmed(#[trigger] requested[i]).len() > 0 implies is_queued(
        after,
        session,
        trimmed(requested[i]),
    ) by {
        let t = trimmed(requested[i]);
        if queued.contains(t) {
            let k = choose|k: int| 0 <= k < queued.len() && queued[k] == t;
            assert(now[k] == was[k]);
        } else {
            let k = choose|k: int| 0 <= k < targets.len() && targets[k] == t;
            assert(now[was.len() + k] == rows[k]);
        }
    }
    assert forall|k: int| was.len() <= k < now.len() implies ({
        let d = #[trigger] now[k];
        &&& d.target_id.len() > 0
        &&& !is_queued(s, session, d.target_id)
        &&& d.id == s.last_drop_id + 1 + (k - was.len())
        &&& d.queued_at_ms == at_ms
        &&& exists|i: int|
            0 <= i < requested.len() && trimmed(#[trigger] requested[i]) == d.target_id
    }) by {
        let t = targets[k - was.len()];
        assert(now[k] == rows[k - was.len()]);
        if is_queued(s, session, t) {
            let i = choose|i: int|
                0 <= i < of_session(s.drops, session).len() && (#[trigger] of_session(
                    s.drops,
                    session,
                )[i]).target_id == t;
            assert(queued[i] == t);
        }
    }
    assert forall|j: int, k: int| was.len() <= j < k < now.len() implies (
    #[trigger] now[j]).target_id != (#[trigger] now[k]).target_id by {
        assert(targets[j - was.len()] != targets[k - was.len()]);
    }
    if let Some(c) = command {
        let row = KeyedModel { session, row: LedgerRowModel { command_id: c, queued_at_ms: at_ms } };
        of_session_push(s.ledger, row, session);
        of_session_push(s.ledger, row, other);
        let known = ledger_commands(of_session(after.ledger, session));
        assert(known[known.len() - 1] == c);
    }
    if other != session {
        of_session_concat(s.drops, new, other);
        queued_rows_of(s, session, targets, at_ms, other);
        assert(of_session(s.drops, other) + Seq::<PendingAgentDropModel>::empty() =~= of_session(
            s.drops,
            other,
        ));
    }
}

/// Consumed drops leave the queue: of the session's rows those with one of the numbers, and no
/// other row. Rows that stay keep their order.
pub proof fn consumed_drops_leave_the_queue(
    table: Seq<KeyedModel<PendingAgentDropModel>>,
    session: Seq<char>,
    ids: Seq<i64>,
)
    ensures
        ({
            let after = without_drops(table, session, ids);
            &&& forall|k: int|
                0 <= k < after.len() ==> table.contains(#[trigger] after[k]) && !(after[k].session
                    == session && ids.contains(after[k].row.id))
            &&& forall|i: int|
                0 <= i < table.len() && !((#[trigger] table[i]).session == session && ids.contains(
                    table[i].row.id,
                )) ==> after.contains(table[i])
            &&& (forall|i: int|
                0 <= i < table.len() ==> !((#[trigger] table[i]).session == session
                    && ids.contains(table[i].row.id))) ==> after == table
        }),
    decreases table.len(),
{
    let after = without_drops(table, session, ids);
    if table.len() > 0 {
        let rest = table.drop_last();
        let less = without_drops(rest, session, ids);
        let last = table.last();
        consumed_drops_leave_the_queue(rest, session, ids);
        assert(table[table.len() - 1] == last);
        assert forall|k: int| 0 <= k < after.len() implies table.contains(#[trigger] after[k])
            && !(after[k].session == session && ids.contains(after[k].row.id)) by {
            if k < less.len() {
                assert(after[k] == less[k]);
                let i = choose|i: int| 0 <= i < rest.len() && rest[i] == less[k];
                assert(table[i] == less[k]);
            }
        }
        assert forall|i: int|
            0 <= i < table.len() && !((#[trigger] table[i]).session == session && ids.contains(
                table[i].row.id,
            )) implies after.contains(table[i]) by {
            if i < rest.len() {
                assert(rest[i] == table[i]);
                let k = choose|k: int| 0 <= k < less.len() && less[k] == table[i];
                assert(after[k] == table[i]);
            } else {
                assert(after[after.len() - 1] == table[i]);
            }
        }
        if forall|i: int|
            0 <= i < table.len() ==> !((#[trigger] table[i]).session == session && ids.contains(
                table[i].row.id,
            )) {
            assert forall|i: int| 0 <= i < rest.len() implies !((#[trigger] rest[i]).session
                == session && ids.contains(rest[i].row.id)) by {
                assert(rest[i] == table[i]);
            }
            assert(after =~= table);
        }
    } else {
        assert(after =~= table);
    }
}

} // verus!
