//! A whole call of a pass: its deciders and composers are functions, and the pass asks them in
//! turn until it ends.

use vstd::prelude::*;

use crate::meta::{CoreStateModel, ModuleMetaModel};
use crate::rows::of_session;
use crate::store::cache::loaded;
use crate::store::compartments::by_sequence;
use crate::store::records::StoredCompartmentModel;
use crate::store::McStoreModel;
use crate::transform::errors::{MAX_CAS_RETRIES, TransformErrorModel};
use crate::transform::ingress::tail_items;
use crate::transform::laws::{
    a_pass_ends, an_unserved_answer_writes_nothing, answers_left, nearer, waits_for,
};
use crate::transform::machine::{
    at, next, GatedModel, PassEventModel, PassJobModel, PassSignalsModel, PassStageModel,
    TransformPassModel,
};
use crate::transform::output::ReductionRequestModel;
use crate::transform::pass::{busts, PassStartModel};
use crate::transform::todo::InjectionOutcomeModel;
use crate::transform::types::{
    CkIngressMessageModel, ClassifierInput, FlatProjectionModel, M0CompositionModel,
    M1CompositionModel, PassPlanModel, ReducedBlockModel, ReductionDecisionModel,
    SchedulerOutcomeModel, SelItemModel, StepAction, StepInputModel, TransformRequestModel,
};
use crate::wire::CkWireBlockModel;

verus! {

// --- the deciders and composers ---------------------------------------------------------

/// The deciders and composers of a pass, each as a function of what it is handed. What they
/// read besides, such as thresholds and budgets, is the same throughout a call.
pub struct DecidersModel {
    /// Flattens messages into blocks.
    pub project: spec_fn(Seq<CkIngressMessageModel>) -> Result<FlatProjectionModel, Seq<char>>,
    /// Folds what a history is rendered from into a render configuration.
    pub configure: spec_fn(Seq<char>, Seq<char>) -> Seq<char>,
    /// The digest of what the delta of a project is rendered from, for a history.
    pub digest: spec_fn(McStoreModel, Seq<char>, Seq<StoredCompartmentModel>) -> u64,
    pub schedule: spec_fn(TransformRequestModel, PassStartModel) -> SchedulerOutcomeModel,
    pub select: spec_fn(GatedModel) -> Seq<ReductionDecisionModel>,
    pub classify: spec_fn(ClassifierInput) -> PassPlanModel,
    /// The todo state that a tail shows, or the one that is kept.
    pub capture: spec_fn(Seq<SelItemModel>, Option<Seq<char>>) -> Option<Seq<char>>,
    /// Renders a history.
    pub compose: spec_fn(McStoreModel, Seq<char>, Seq<StoredCompartmentModel>) -> Result<
        M0CompositionModel,
        TransformErrorModel,
    >,
    /// Renders the delta of a session.
    pub compose_delta: spec_fn(McStoreModel, Seq<char>, Seq<char>, ModuleMetaModel) -> Result<
        M1CompositionModel,
        TransformErrorModel,
    >,
    /// Freezes what a step hands over.
    pub step: spec_fn(CoreStateModel, StepInputModel) -> CoreStateModel,
    /// What becomes of the todo pair.
    pub inject: spec_fn(ModuleMetaModel, bool) -> InjectionOutcomeModel,
    /// The block that stands for a reduced one.
    pub reduce: spec_fn(ReductionRequestModel) -> CkWireBlockModel,
    /// Whether a profile strips the reasoning of merged assistant turns.
    pub strips: spec_fn(Seq<char>) -> bool,
}

/// The history of a session, oldest first.
pub open spec fn history_of(s: McStoreModel, session: Seq<char>) -> Seq<StoredCompartmentModel> {
    by_sequence(of_session(s.compartments, session))
}

/// What is read at a pass that began.
pub open spec fn signals_for(
    d: DecidersModel,
    request: TransformRequestModel,
    project: Seq<char>,
    s: McStoreModel,
    start: PassStartModel,
) -> PassSignalsModel {
    PassSignalsModel {
        render_config: (d.configure)(request.render_config, start.workspace_fingerprint),
        m1_digest: (d.digest)(s, project, history_of(s, request.session_id)),
        outcome: (d.schedule)(request, start),
    }
}

/// The cache behind a step.
pub open spec fn stepped(d: DecidersModel, core: CoreStateModel, input: StepInputModel) ->
    CoreStateModel {
    (d.step)(core, input)
}

/// The plan for what decides it.
pub open spec fn planned(d: DecidersModel, input: ClassifierInput) -> PassPlanModel {
    (d.classify)(input)
}

/// The blocks that stand for reduced ones.
pub open spec fn shortened(d: DecidersModel, wanted: Seq<ReductionRequestModel>) -> Seq<
    ReducedBlockModel,
> {
    wanted.map_values(
        |w: ReductionRequestModel| ReducedBlockModel { id: w.id, wire: (d.reduce)(w) },
    )
}

/// The answer to what a pass asks. A pass that ended asks nothing.
pub open spec fn asked(d: DecidersModel, p: TransformPassModel, s: McStoreModel) -> PassEventModel {
    let request = p.job.request;
    let project = p.job.project_path;
    match p.stage {
        PassStageModel::Project => PassEventModel::Projected((d.project)(request.messages)),
        PassStageModel::Signal(b) => PassEventModel::Signals(
            signals_for(d, request, project, s, b.value.start),
        ),
        PassStageModel::Select(g) => PassEventModel::Selected((d.select)(g.value)),
        PassStageModel::Plan(c) => PassEventModel::Planned {
            plan: planned(d, c.value.input),
            captured: (d.capture)(
                c.value.gated.gate.tail,
                c.value.gated.begun.start.meta.last_todo_state,
            ),
        },
        PassStageModel::Compose(_) => PassEventModel::Composed(
            (d.compose)(s, project, history_of(s, request.session_id)),
        ),
        PassStageModel::Recompose(x) => PassEventModel::Recomposed {
            comp: (d.compose)(s, project, x.value.history),
            m1_digest: (d.digest)(s, project, x.value.history),
        },
        PassStageModel::FreezeHistory(x) => PassEventModel::Stepped {
            core: stepped(d, x.value.on.work.core, x.value.input),
            recaptured: (d.capture)(
                tail_items(x.value.on.start().live, x.value.comp.coverage_ordinal),
                x.value.on.work.meta.last_todo_state,
            ),
        },
        PassStageModel::ComposeDelta(w) => PassEventModel::DeltaComposed(
            (d.compose_delta)(s, request.session_id, project, w.value.work.meta),
        ),
        PassStageModel::FreezeDelta(x) => PassEventModel::Stepped {
            core: stepped(d, x.value.on.work.core, x.value.input),
            recaptured: None,
        },
        PassStageModel::Replay(x) => PassEventModel::Stepped {
            core: stepped(d, x.value.on.work.core, x.value.input),
            recaptured: None,
        },
        PassStageModel::Inject(w) => PassEventModel::Injected(
            (d.inject)(w.value.work.meta, busts(w.value.plan)),
        ),
        PassStageModel::Render(x) => PassEventModel::Rendered {
            reduced: shortened(d, x.value.wanted),
            strips_reasoning: (d.strips)(request.serializer_profile),
        },
        PassStageModel::Served(_) | PassStageModel::Failed(_) => PassEventModel::Injected(
            InjectionOutcomeModel::Nothing,
        ),
    }
}

/// Whether a pass asks nothing more.
pub open spec fn ended(p: TransformPassModel) -> bool {
    p.stage is Served || p.stage is Failed
}

/// Where the answer to what a pass asks leads it, and what it leaves of the store.
#[verifier::opaque]
pub open spec fn answered(d: DecidersModel, p: TransformPassModel, s: McStoreModel) -> (
    TransformPassModel,
    McStoreModel,
) {
    next(p, s, asked(d, p, s))
}

/// A pass and its store after so many answers, or where it ended before.
pub open spec fn driven(d: DecidersModel, p: TransformPassModel, s: McStoreModel, n: nat) -> (
    TransformPassModel,
    McStoreModel,
)
    decreases n,
{
    if n == 0 {
        (p, s)
    } else {
        let (q, t) = driven(d, p, s, (n - 1) as nat);
        if ended(q) {
            (q, t)
        } else {
            answered(d, q, t)
        }
    }
}

/// How many answers a pass takes in at most, however often it starts over.
pub open spec fn answers_in_all() -> nat {
    (MAX_CAS_RETRIES as nat + 1) * 9
}

/// A whole call of a pass.
pub open spec fn call(d: DecidersModel, job: PassJobModel, s: McStoreModel) -> (
    TransformPassModel,
    McStoreModel,
) {
    driven(d, at(job, PassStageModel::Project), s, answers_in_all())
}

// --- a call ends -------------------------------------------------------------------------

/// How many answers a pass can still take in.
pub open spec fn still_to_come(p: TransformPassModel) -> int {
    answers_left(p.stage) + (MAX_CAS_RETRIES - p.job.attempt) * 9
}

proof fn a_question_is_answered(d: DecidersModel, p: TransformPassModel, s: McStoreModel)
    requires
        !ended(p),
    ensures
        waits_for(p.stage, asked(d, p, s)),
{
}

proof fn each_answer_counts(p: TransformPassModel, q: TransformPassModel)
    requires
        nearer(p, q),
        p.job.attempt <= MAX_CAS_RETRIES,
        !ended(p),
    ensures
        q.job.attempt <= MAX_CAS_RETRIES,
        still_to_come(q) < still_to_come(p),
        0 <= still_to_come(q),
{
}

pub(crate) proof fn answers_are_counted(
    d: DecidersModel,
    p: TransformPassModel,
    s: McStoreModel,
    n: nat,
)
    requires
        p.job.attempt <= MAX_CAS_RETRIES,
    ensures
        ({
            let q = driven(d, p, s, n).0;
            &&& q.job.attempt <= MAX_CAS_RETRIES
            &&& q.job == (PassJobModel { attempt: q.job.attempt, ..p.job })
            &&& ended(q) || still_to_come(q) + n <= still_to_come(p)
        }),
    decreases n,
{
    if n > 0 {
        let before = (n - 1) as nat;
        answers_are_counted(d, p, s, before);
        let (q, t) = driven(d, p, s, before);
        if !ended(q) {
            a_question_is_answered(d, q, t);
            a_pass_ends(q, t, asked(d, q, t));
            reveal(answered);
            each_answer_counts(q, answered(d, q, t).0);
        }
    }
}

/// A call ends: the pass was served, or it failed.
pub proof fn a_call_ends(d: DecidersModel, job: PassJobModel, s: McStoreModel)
    requires
        job.attempt <= MAX_CAS_RETRIES,
    ensures
        ended(call(d, job, s).0),
{
    let p = at(job, PassStageModel::Project);
    let n = answers_in_all();
    assert(n == (MAX_CAS_RETRIES as nat + 1) * 9);
    answers_are_counted(d, p, s, n);
    let q = driven(d, p, s, n).0;
    if !ended(q) {
        assert(answers_left(q.stage) > 0);
    }
}

/// A call that fails leaves the whole store as it was, and with it what is frozen of its
/// session and the version of its row.
pub proof fn a_failed_call_leaves_the_store(d: DecidersModel, job: PassJobModel, s: McStoreModel)
    ensures
        call(d, job, s).0.stage is Failed ==> call(d, job, s).1 == s && loaded(
            call(d, job, s).1,
            job.request.session_id,
        ) == loaded(s, job.request.session_id),
{
    unserved_so_far(d, at(job, PassStageModel::Project), s, answers_in_all());
}

proof fn unserved_so_far(d: DecidersModel, p: TransformPassModel, s: McStoreModel, n: nat)
    ensures
        driven(d, p, s, n).0.stage !is Served ==> driven(d, p, s, n).1 == s,
    decreases n,
{
    if n > 0 {
        let (q, t) = driven(d, p, s, (n - 1) as nat);
        unserved_so_far(d, p, s, (n - 1) as nat);
        if !ended(q) && answered(d, q, t).0.stage !is Served {
            reveal(answered);
            an_unserved_answer_writes_nothing(q, t, asked(d, q, t));
        }
    }
}

// --- deciders that keep to their word ------------------------------------------------------

/// Whether a step that replays leaves the boundary alone.
pub open spec fn keeps_the_boundary(d: DecidersModel) -> bool {
    forall|core: CoreStateModel, input: StepInputModel|
        input.proposed == StepAction::SoftPlus && input.rendered_units.len() == 0
            && input.new_boundary_id is None ==> (#[trigger] stepped(d, core, input)).boundary_id
            == core.boundary_id
}

/// Whether a step that replays changes nothing where the boundary is there and no
/// reconciliation waits.
pub open spec fn replays(d: DecidersModel) -> bool {
    forall|core: CoreStateModel, input: StepInputModel|
        input.proposed == StepAction::SoftPlus && input.rendered_units.len() == 0
            && input.new_boundary_id is None && input.boundary_present == core.boundary_id
            && !core.reconcile_pending ==> #[trigger] stepped(d, core, input) == core
}

/// Whether a plan to replay is made where nothing is due: the history was rendered under the
/// same configuration, its shape is known, its boundary is there, no reconciliation waits,
/// and neither a fold nor a reduction nor a new delta is due. A history that was not rendered,
/// or under another configuration, is rendered; and with its boundary there, a pass does not
/// replay where a new delta is due.
pub open spec fn replays_where_nothing_is_due(d: DecidersModel) -> bool {
    forall|input: ClassifierInput| #[trigger]
        classifies(input, planned(d, input))
}

/// What a plan keeps to.
pub open spec fn classifies(input: ClassifierInput, plan: PassPlanModel) -> bool {
    &&& !input.initialized || input.render_config_changed ==> plan !is Soft && plan !is Defer
    &&& plan is Defer && input.boundary_present ==> !input.m1_revision_changed
    &&& input.initialized && input.valid_m0m1_shape && !input.is_legacy_baseline
        && !input.render_config_changed && !input.hard_fold_requested && input.boundary_present
        && !input.reconcile_pending && !input.m1_revision_changed && !input.reductions_pending
        ==> plan is Defer
}

/// Whether the todo pair stays where nothing is rendered.
pub open spec fn keeps_the_pair(d: DecidersModel) -> bool {
    forall|meta: ModuleMetaModel|
        (#[trigger] (d.inject)(meta, false)) is Nothing || (d.inject)(meta, false) is Keep
}

/// Whether two stores differ at most in what a pass writes.
pub open spec fn written_by_a_pass(s: McStoreModel, t: McStoreModel) -> bool {
    t == (McStoreModel {
        cache: t.cache,
        compartments: t.compartments,
        transcripts: t.transcripts,
        drops: t.drops,
        ..s
    })
}

/// Whether the digest of a delta is that of a history and of what no pass writes.
pub open spec fn digests_a_history(d: DecidersModel) -> bool {
    forall|s: McStoreModel, t: McStoreModel, project: Seq<char>, history: Seq<
        StoredCompartmentModel,
    >|
        #![trigger (d.digest)(s, project, history), (d.digest)(t, project, history)]
        written_by_a_pass(s, t) ==> (d.digest)(t, project, history) == (d.digest)(
            s,
            project,
            history,
        )
}

/// Whether deciders keep to what a replay rests on.
pub open spec fn keep_their_word(d: DecidersModel) -> bool {
    &&& keeps_the_boundary(d)
    &&& replays(d)
    &&& replays_where_nothing_is_due(d)
    &&& keeps_the_pair(d)
    &&& digests_a_history(d)
}

} // verus!
