//! What holds of a whole run of a transform pass.

use vstd::prelude::*;

use crate::store::cache::loaded;
use crate::store::drops::{commands_kept, commands_kept_of};
use crate::store::McStoreModel;
use crate::transform::errors::MAX_CAS_RETRIES;
use crate::transform::laws::{
    a_pass_ends, an_unawaited_answer_changes_nothing, an_unserved_answer_writes_nothing,
    only_one_answer_writes, waits_for,
};
use crate::transform::machine::{ends, next, PassEventModel, TransformPassModel, WorkingModel};
use crate::transform::output::output_of;
use crate::wire::CkWireMessageModel;

verus! {

/// A pass and its store after a series of answers.
pub open spec fn run(p: TransformPassModel, s: McStoreModel, events: Seq<PassEventModel>) -> (
    TransformPassModel,
    McStoreModel,
)
    decreases events.len(),
{
    if events.len() == 0 {
        (p, s)
    } else {
        let before = run(p, s, events.drop_last());
        next(before.0, before.1, events.last())
    }
}

// --- what a run leaves of the store ---------------------------------------------------

proof fn same_ledger(s: McStoreModel, t: McStoreModel)
    requires
        t.ledger == s.ledger,
    ensures
        commands_kept(s, t),
{
    assert forall|session: Seq<char>| #[trigger] commands_kept_of(s, t, session) by {}
}

proof fn an_end_keeps_the_ledger(
    p: TransformPassModel,
    s: McStoreModel,
    w: WorkingModel,
    messages: Seq<CkWireMessageModel>,
)
    ensures
        ends(p.job, s, w, messages).1.ledger == s.ledger,
{
}

/// A pass forgets no command.
pub proof fn a_pass_keeps_the_commands(
    p: TransformPassModel,
    s: McStoreModel,
    event: PassEventModel,
)
    ensures
        commands_kept(s, next(p, s, event).1),
{
    match event {
        PassEventModel::Rendered { reduced, strips_reasoning } => {
            if p.stage is Render {
                let w = p.stage->Render_0.value.on;
                if let Ok(messages) = output_of(
                    w.work.core,
                    w.work.meta,
                    p.job.request.messages,
                    w.projection().blocks,
                    reduced,
                    strips_reasoning,
                ) {
                    an_end_keeps_the_ledger(p, s, w, messages);
                }
            }
        },
        _ => {
            only_one_answer_writes(p, s, event);
        },
    }
    same_ledger(s, next(p, s, event).1);
}

/// A run keeps to its request, and to the bound on starting over.
pub proof fn a_run_keeps_its_request(
    p: TransformPassModel,
    s: McStoreModel,
    events: Seq<PassEventModel>,
)
    requires
        p.job.attempt <= MAX_CAS_RETRIES,
    ensures
        run(p, s, events).0.job.attempt <= MAX_CAS_RETRIES,
        run(p, s, events).0.job.request == p.job.request,
        run(p, s, events).0.job.project_path == p.job.project_path,
        run(p, s, events).0.job.placeholder == p.job.placeholder,
        run(p, s, events).0.job.now_ms == p.job.now_ms,
    decreases events.len(),
{
    if events.len() > 0 {
        let (q, t) = run(p, s, events.drop_last());
        let event = events.last();
        a_run_keeps_its_request(p, s, events.drop_last());
        if waits_for(q.stage, event) {
            a_pass_ends(q, t, event);
        } else {
            an_unawaited_answer_changes_nothing(q, t, event);
        }
    }
}

/// A run that is not served leaves the whole store as it found it. In particular a pass that
/// fails, be it after the history was rendered behind a cut, leaves what is frozen of its
/// session, its row version and its compartments alone.
pub proof fn an_unserved_run_leaves_the_store(
    p: TransformPassModel,
    s: McStoreModel,
    events: Seq<PassEventModel>,
)
    requires
        run(p, s, events).0.stage !is Served,
    ensures
        run(p, s, events).1 == s,
    decreases events.len(),
{
    if events.len() > 0 {
        let (q, t) = run(p, s, events.drop_last());
        if q.stage is Served {
            an_unawaited_answer_changes_nothing(q, t, events.last());
        } else {
            an_unserved_run_leaves_the_store(p, s, events.drop_last());
            an_unserved_answer_writes_nothing(q, t, events.last());
        }
    }
}

/// A pass that fails leaves of its session what was loaded before: the frozen blocks, the
/// record and the version of the row.
pub proof fn a_failed_run_keeps_what_is_loaded(
    p: TransformPassModel,
    s: McStoreModel,
    events: Seq<PassEventModel>,
)
    ensures
        run(p, s, events).0.stage is Failed ==> loaded(
            run(p, s, events).1,
            p.job.request.session_id,
        ) == loaded(s, p.job.request.session_id),
{
    if run(p, s, events).0.stage is Failed {
        an_unserved_run_leaves_the_store(p, s, events);
    }
}

} // verus!
