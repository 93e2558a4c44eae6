//! The queue of blocks that the agent asked to drop, and the ledger of its commands.

use vstd::prelude::*;

use crate::rows::{
    group_views, list_names, of_session, of_session_push, opt_text, session_rows, slice_has,
    sort_rows, sorted, take_all, take_next, views, Keyed, KeyedModel, Row, RowOrder,
};
use crate::store::errors::{McStoreError, StoreError};
use crate::store::integrity::{drops_kept, well_formed};
use crate::store::records::{
    AppendOutcome, LedgerRow, LedgerRowModel, PendingAgentDrop, PendingAgentDropModel,
};
use crate::store::{McStore, McStoreModel};
use crate::text::{same_text, trim, trimmed};

verus! {

/// The targets that rows of the queue name.
pub open spec fn drop_targets(rows: Seq<PendingAgentDropModel>) -> Seq<Seq<char>> {
    rows.map_values(|d: PendingAgentDropModel| d.target_id)
}

/// The commands that rows of the ledger name.
pub open spec fn ledger_commands(rows: Seq<LedgerRowModel>) -> Seq<Seq<char>> {
    rows.map_values(|l: LedgerRowModel| l.command_id)
}

/// The targets to queue: trimmed, not blank, not queued yet, each once, in request order.
pub open spec fn fresh_targets(queued: Seq<Seq<char>>, requested: Seq<Seq<char>>) -> Seq<Seq<char>>
    decreases requested.len(),
{
    if requested.len() == 0 {
        Seq::empty()
    } else {
        let rest = fresh_targets(queued, requested.drop_last());
        let target = trimmed(requested.last());
        if target.len() == 0 || queued.contains(target) || rest.contains(target) {
            rest
        } else {
            rest.push(target)
        }
    }
}

/// No more targets are queued than were requested.
pub proof fn fresh_targets_bounded(queued: Seq<Seq<char>>, requested: Seq<Seq<char>>)
    ensures
        fresh_targets(queued, requested).len() <= requested.len(),
    decreases requested.len(),
{
    if requested.len() > 0 {
        fresh_targets_bounded(queued, requested.drop_last());
    }
}

/// The rows that queue `targets`, numbered behind `last_id`.
pub open spec fn queued_rows(
    session: Seq<char>,
    targets: Seq<Seq<char>>,
    last_id: i64,
    at_ms: i64,
) -> Seq<KeyedModel<PendingAgentDropModel>> {
    Seq::new(
        targets.len(),
        |i: int|
            KeyedModel {
                session,
                row: PendingAgentDropModel {
                    id: (last_id + 1 + i) as i64,
                    target_id: targets[i],
                    queued_at_ms: at_ms,
                },
            },
    )
}

/// The targets that a request adds to the queue of a session.
pub open spec fn targets_to_queue(
    s: McStoreModel,
    session: Seq<char>,
    requested: Seq<Seq<char>>,
) -> Seq<Seq<char>> {
    fresh_targets(drop_targets(of_session(s.drops, session)), requested)
}

/// Whether a command was carried out before.
pub open spec fn command_known(
    s: McStoreModel,
    session: Seq<char>,
    command: Option<Seq<char>>,
) -> bool {
    command matches Some(c) && ledger_commands(of_session(s.ledger, session)).contains(c)
}

/// The store after a request that is not a repeat was queued.
pub open spec fn with_drops(
    s: McStoreModel,
    session: Seq<char>,
    command: Option<Seq<char>>,
    requested: Seq<Seq<char>>,
    at_ms: i64,
) -> McStoreModel {
    let targets = targets_to_queue(s, session, requested);
    McStoreModel {
        ledger: match command {
            Some(c) => s.ledger.push(
                KeyedModel { session, row: LedgerRowModel { command_id: c, queued_at_ms: at_ms } },
            ),
            None => s.ledger,
        },
        drops: s.drops + queued_rows(session, targets, s.last_drop_id, at_ms),
        last_drop_id: (s.last_drop_id + targets.len()) as i64,
        ..s
    }
}

/// The queue without the rows of `session` whose number is in `ids`.
pub open spec fn without_drops(
    table: Seq<KeyedModel<PendingAgentDropModel>>,
    session: Seq<char>,
    ids: Seq<i64>,
) -> Seq<KeyedModel<PendingAgentDropModel>>
    decreases table.len(),
{
    if table.len() == 0 {
        Seq::empty()
    } else {
        let rest = without_drops(table.drop_last(), session, ids);
        if table.last().session == session && ids.contains(table.last().row.id) {
            rest
        } else {
            rest.push(table.last())
        }
    }
}

/// The order in which drops are drained: oldest first, then by number.
pub struct DrainOrder;

impl RowOrder<PendingAgentDrop> for DrainOrder {
    open spec fn le(a: PendingAgentDropModel, b: PendingAgentDropModel) -> bool {
        a.queued_at_ms < b.queued_at_ms || (a.queued_at_ms == b.queued_at_ms && a.id <= b.id)
    }

    proof fn le_total(a: PendingAgentDropModel, b: PendingAgentDropModel) {
    }

    proof fn le_transitive(
        a: PendingAgentDropModel,
        b: PendingAgentDropModel,
        c: PendingAgentDropModel,
    ) {
    }

    fn at_most(a: &PendingAgentDrop, b: &PendingAgentDrop) -> (r: bool) {
        a.queued_at_ms < b.queued_at_ms || (a.queued_at_ms == b.queued_at_ms && a.id <= b.id)
    }
}

fn names_target(rows: &Vec<PendingAgentDrop>, target: &str) -> (r: bool)
    ensures
        r == drop_targets(views(rows@)).contains(target@),
{
    let mut i: usize = 0;
    while i < rows.len()
        invariant
            i <= rows.len(),
            forall|j: int| 0 <= j < i ==> #[trigger] drop_targets(views(rows@))[j] != target@,
        decreases rows.len() - i,
    {
        if same_text(&rows[i].target_id, target) {
            assert(drop_targets(views(rows@))[i as int] == target@);
            return true;
        }
        i += 1;
    }
    false
}

fn names_command(rows: &Vec<LedgerRow>, command: &str) -> (r: bool)
    ensures
        r == ledger_commands(views(rows@)).contains(command@),
{
    let mut i: usize = 0;
    while i < rows.len()
        invariant
            i <= rows.len(),
            forall|j: int| 0 <= j < i ==> #[trigger] ledger_commands(views(rows@))[j] != command@,
        decreases rows.len() - i,
    {
        if same_text(&rows[i].command_id, command) {
            assert(ledger_commands(views(rows@))[i as int] == command@);
            return true;
        }
        i += 1;
    }
    false
}

fn choose_targets(queued: &Vec<PendingAgentDrop>, requested: &[String]) -> (r: Vec<String>)
    ensures
        views(r@) == fresh_targets(drop_targets(views(queued@)), views(requested@)),
{
    broadcast use group_views;

    let ghost wanted = views(requested@);
    let mut r: Vec<String> = Vec::new();
    let mut i: usize = 0;
    while i < requested.len()
        invariant
            i <= requested.len(),
            wanted == views(requested@),
            views(r@) == fresh_targets(drop_targets(views(queued@)), wanted.take(i as int)),
        decreases requested.len() - i,
    {
        proof {
            take_next(wanted, i as int);
        }
        let target = trim(&requested[i]);
        if !(target.is_empty() || names_target(queued, target) || list_names(&r, target)) {
            r.push(target.to_owned());
        }
        i += 1;
    }
    proof {
        take_all(wanted);
    }
    r
}

impl McStore {
    /// Queues drops without a command; see
    /// [`McStore::append_pending_agent_drops_with_command`].
    pub fn append_pending_agent_drops(
        &mut self,
        session_id: &str,
        target_ids: &[String],
        queued_at_ms: i64,
    ) -> (r: Result<usize, McStoreError>)
        ensures
            match r {
                Ok(n) => {
                    &&& n == targets_to_queue(old(self)@, session_id@, views(target_ids@)).len()
                    &&& old(self)@.last_drop_id + n <= i64::MAX
                    &&& final(self)@ == with_drops(
                        old(self)@,
                        session_id@,
                        None,
                        views(target_ids@),
                        queued_at_ms,
                    )
                },
                Err(e) => {
                    &&& old(self)@.last_drop_id + targets_to_queue(
                        old(self)@,
                        session_id@,
                        views(target_ids@),
                    ).len() > i64::MAX
                    &&& e == McStoreError::Store(StoreError::Exhausted)
                    &&& final(self)@ == old(self)@
                },
            },
            well_formed(old(self)@) ==> well_formed(final(self)@),
            commands_kept(old(self)@, final(self)@),
    {
        let requested: usize = target_ids.len();
        assert(views(target_ids@).len() == requested);
        match self.append_pending_agent_drops_with_command(
            session_id,
            None,
            target_ids,
            queued_at_ms,
        ) {
            Ok(outcome) => {
                proof {
                    fresh_targets_bounded(
                        drop_targets(of_session(old(self)@.drops, session_id@)),
                        views(target_ids@),
                    );
                }
                Ok(outcome.queued as usize)
            },
            Err(e) => Err(e),
        }
    }

    /// Queues drops and records the command that asked for them. A repeated command queues
    /// nothing.
    pub fn append_pending_agent_drops_with_command(
        &mut self,
        session_id: &str,
        command_id: Option<&str>,
        target_ids: &[String],
        queued_at_ms: i64,
    ) -> (r: Result<AppendOutcome, McStoreError>)
        ensures
            ({
                let outcome = append_outcome(
                    old(self)@,
                    session_id@,
                    opt_text(command_id),
                    views(target_ids@),
                    queued_at_ms,
                );
                match r {
                    Ok(o) => outcome == Ok::<(AppendOutcome, McStoreModel), McStoreError>(
                        (o, final(self)@),
                    ),
                    Err(e) => {
                        &&& outcome == Err::<(AppendOutcome, McStoreModel), McStoreError>(e)
                        &&& final(self)@ == old(self)@
                    },
                }
            }),
            well_formed(old(self)@) ==> well_formed(final(self)@),
            commands_kept(old(self)@, final(self)@),
    {
        broadcast use group_views;

        if let Some(command) = command_id {
            let known = session_rows(&self.ledger, session_id);
            if names_command(&known, command) {
                return Ok(AppendOutcome { queued: 0, duplicate: true });
            }
        }
        let queued = session_rows(&self.drops, session_id);
        let targets = choose_targets(&queued, target_ids);
        let ghost chosen = views(targets@);
        if (targets.len() as i128) + (self.last_drop_id as i128) > i64::MAX as i128 {
            return Err(McStoreError::Store(StoreError::Exhausted));
        }
        if let Some(command) = command_id {
            self.ledger.push(
                Keyed {
                    session_id: session_id.to_owned(),
                    row: LedgerRow { command_id: command.to_owned(), queued_at_ms },
                },
            );
        }
        let ghost added = queued_rows(session_id@, chosen, old(self)@.last_drop_id, queued_at_ms);
        let ghost start = self@;
        let mut i: usize = 0;
        assert(start.drops + added.take(0) =~= start.drops);
        while i < targets.len()
            invariant
                i <= targets.len(),
                targets.len() + start.last_drop_id <= i64::MAX,
                chosen == views(targets@),
                added == queued_rows(session_id@, chosen, start.last_drop_id, queued_at_ms),
                self@ == (McStoreModel {
                    drops: start.drops + added.take(i as int),
                    last_drop_id: (start.last_drop_id + i) as i64,
                    ..start
                }),
            decreases targets.len() - i,
        {
            let id: i64 = self.last_drop_id + 1;
            let row = PendingAgentDrop { id, target_id: targets[i].clone(), queued_at_ms };
            self.drops.push(Keyed { session_id: session_id.to_owned(), row });
            self.last_drop_id = id;
            proof {
                take_next(added, i as int);
                assert(row@ == added[i as int].row);
                assert(start.drops + added.take(i + 1) =~= (start.drops + added.take(i as int)).push(
                    added[i as int],
                ));
            }
            i += 1;
        }
        proof {
            take_all(added);
            if well_formed(old(self)@) {
                drops_kept(
                    old(self)@,
                    session_id@,
                    opt_text(command_id),
                    views(target_ids@),
                    queued_at_ms,
                );
            }
        }
        proof {
            append_keeps_commands(
                old(self)@,
                session_id@,
                opt_text(command_id),
                views(target_ids@),
                queued_at_ms,
            );
        }
        Ok(AppendOutcome { queued: targets.len() as u64, duplicate: false })
    }

    /// Reads the queue of a session in the order in which it is drained.
    pub fn load_pending_agent_drops(&self, session_id: &str) -> (r: Vec<PendingAgentDrop>)
        ensures
            views(r@) == sorted::<PendingAgentDrop, DrainOrder>(
                of_session(self@.drops, session_id@),
            ),
    {
        sort_rows::<PendingAgentDrop, DrainOrder>(session_rows(&self.drops, session_id))
    }
}

// --- the ledger -----------------------------------------------------------------------

/// What a request to queue drops is answered, and the store behind it.
pub open spec fn append_outcome(
    s: McStoreModel,
    session: Seq<char>,
    command: Option<Seq<char>>,
    targets: Seq<Seq<char>>,
    at_ms: i64,
) -> Result<(AppendOutcome, McStoreModel), McStoreError> {
    let n = targets_to_queue(s, session, targets).len();
    if command_known(s, session, command) {
        Ok((AppendOutcome { queued: 0, duplicate: true }, s))
    } else if s.last_drop_id + n > i64::MAX {
        Err(McStoreError::Store(StoreError::Exhausted))
    } else {
        Ok(
            (
                AppendOutcome { queued: n as u64, duplicate: false },
                with_drops(s, session, command, targets, at_ms),
            ),
        )
    }
}

/// Whether a store still knows every command of a session that another knew.
pub open spec fn commands_kept_of(s: McStoreModel, t: McStoreModel, session: Seq<char>) -> bool {
    forall|command: Option<Seq<char>>| #[trigger]
        command_known(s, session, command) ==> command_known(t, session, command)
}

/// Whether a store still knows every command that another knew, of whatever session.
pub open spec fn commands_kept(s: McStoreModel, t: McStoreModel) -> bool {
    forall|session: Seq<char>| #[trigger] commands_kept_of(s, t, session)
}

proof fn append_keeps_commands(
    s: McStoreModel,
    session: Seq<char>,
    command: Option<Seq<char>>,
    targets: Seq<Seq<char>>,
    at_ms: i64,
)
    ensures
        commands_kept(s, with_drops(s, session, command, targets, at_ms)),
        command is Some ==> command_known(
            with_drops(s, session, command, targets, at_ms),
            session,
            command,
        ),
{
    let t = with_drops(s, session, command, targets, at_ms);
    if let Some(c) = command {
        let entry = t.ledger.last();
        assert forall|other: Seq<char>| #[trigger] commands_kept_of(s, t, other) by {
            of_session_push(s.ledger, entry, other);
            let before = ledger_commands(of_session(s.ledger, other));
            let after = ledger_commands(of_session(t.ledger, other));
            assert forall|known: Option<Seq<char>>| #[trigger]
                command_known(s, other, known) implies command_known(t, other, known) by {
                let k = choose|k: int| 0 <= k < before.len() && before[k] == known->0;
                assert(after[k] == before[k]);
            }
        }
        of_session_push(s.ledger, entry, session);
        let own = of_session(t.ledger, session);
        assert(own.last().command_id == c);
        assert(ledger_commands(own)[own.len() - 1] == c);
    }
}

/// Whether a store knew, through a series of operations on it, every command of a session
/// that it knew before. The series holds the store before the first operation and behind
/// each. Every operation is such but a reset of that very session.
pub open spec fn remembers(history: Seq<McStoreModel>, session: Seq<char>) -> bool {
    forall|i: int|
        0 <= i && i + 1 < history.len() ==> #[trigger] commands_kept_of(
            history[i],
            history[i + 1],
            session,
        )
}

/// A command counts once: after it was accepted, and whatever was done with the store since
/// but a reset of its session, the same command is answered as a repeated one. It queues
/// none of the drops that it asks for, be they the first ones or others, and the queue and
/// the rest of the store stay as they are.
pub proof fn a_command_counts_once(
    s: McStoreModel,
    session: Seq<char>,
    command: Seq<char>,
    targets: Seq<Seq<char>>,
    at_ms: i64,
    outcome: AppendOutcome,
    history: Seq<McStoreModel>,
    later_targets: Seq<Seq<char>>,
    later_ms: i64,
)
    requires
        history.len() > 0,
        append_outcome(s, session, Some(command), targets, at_ms) == Ok::<
            (AppendOutcome, McStoreModel),
            McStoreError,
        >((outcome, history[0])),
        !outcome.duplicate,
        remembers(history, session),
    ensures
        append_outcome(history.last(), session, Some(command), later_targets, later_ms) == Ok::<
            (AppendOutcome, McStoreModel),
            McStoreError,
        >((AppendOutcome { queued: 0, duplicate: true }, history.last())),
{
    append_keeps_commands(s, session, Some(command), targets, at_ms);
    remembered(history, session, Some(command), history.len() - 1);
}

proof fn remembered(
    history: Seq<McStoreModel>,
    session: Seq<char>,
    command: Option<Seq<char>>,
    i: int,
)
    requires
        0 <= i < history.len(),
        remembers(history, session),
        command_known(history[0], session, command),
    ensures
        command_known(history[i], session, command),
    decreases i,
{
    if i > 0 {
        remembered(history, session, command, i - 1);
        assert(commands_kept_of(history[i - 1], history[i - 1 + 1], session));
    }
}

/// Takes the rows of `session` whose number is in `ids` out of the queue.
pub(crate) fn remove_drops(
    table: &mut Vec<Keyed<PendingAgentDrop>>,
    session: &str,
    ids: &[i64],
)
    ensures
        views(final(table)@) == without_drops(views(old(table)@), session@, ids@),
{
    broadcast use group_views;

    let mut kept: Vec<Keyed<PendingAgentDrop>> = Vec::new();
    let mut i: usize = 0;
    while i < table.len()
        invariant
            i <= table.len(),
            table@ == old(table)@,
            views(kept@) == without_drops(views(table@).take(i as int), session@, ids@),
        decreases table.len() - i,
    {
        proof {
            take_next(views(table@), i as int);
        }
        let gone = same_text(&table[i].session_id, session) && slice_has(ids, table[i].row.id);
        if !gone {
            kept.push(table[i].dup());
        }
        i += 1;
    }
    proof {
        take_all(views(table@));
    }
    *table = kept;
}

} // verus!
