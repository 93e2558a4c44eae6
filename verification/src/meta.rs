//! The durable per-session state: the frozen units, the metadata blob and its parts.

use vstd::prelude::*;

use crate::rows::{list_dup, list_same, opt_dup, opt_same, opt_view, views, Row};
use crate::wire::{CkWireMessage, CkWireMessageModel};

verus! {

/// The phase of the single historian run that a session may have in flight.
#[derive(Debug, Clone, Copy, Default, PartialEq, Eq, Structural)]
pub enum HistorianPhase {
    #[default]
    Idle,
    Firing,
    AwaitingProducer,
    Validating,
    Publishing,
}

/// The name of a phase.
pub open spec fn phase_name(phase: HistorianPhase) -> Seq<char> {
    match phase {
        HistorianPhase::Idle => "idle"@,
        HistorianPhase::Firing => "firing"@,
        HistorianPhase::AwaitingProducer => "awaiting_producer"@,
        HistorianPhase::Validating => "validating"@,
        HistorianPhase::Publishing => "publishing"@,
    }
}

impl HistorianPhase {
    /// The name of the phase.
    pub fn as_str(&self) -> (r: &'static str)
        ensures
            r@ == phase_name(*self),
    {
        match self {
            HistorianPhase::Idle => "idle",
            HistorianPhase::Firing => "firing",
            HistorianPhase::AwaitingProducer => "awaiting_producer",
            HistorianPhase::Validating => "validating",
            HistorianPhase::Publishing => "publishing",
        }
    }
}

/// Inclusive ordinal range pinned for one historian run.
#[derive(Debug, Clone, Copy, Default, PartialEq, Eq, Structural)]
pub struct HistorianChunkRange {
    pub from_ordinal: u64,
    pub to_ordinal: u64,
}

impl View for HistorianChunkRange {
    type V = HistorianChunkRange;

    open spec fn view(&self) -> HistorianChunkRange {
        *self
    }
}

impl Row for HistorianChunkRange {
    fn dup(&self) -> (r: Self) {
        *self
    }

    fn same(&self, other: &Self) -> (r: bool) {
        *self == *other
    }
}

/// The historian state of a session. Idle keeps `firing_seq` as the last issued sequence
/// and clears the identifiers of the run.
#[derive(Debug, PartialEq, Eq)]
pub struct HistorianDurableState {
    pub state: HistorianPhase,
    pub firing_seq: u64,
    pub chunk_range: Option<HistorianChunkRange>,
    pub chunk_fingerprint: String,
    pub producer_session_id: Option<String>,
    pub producer_run_id: Option<String>,
    pub fired_at_ms: Option<i64>,
    /// The revert epoch seen when the chunk was assembled.
    pub expected_revert_epoch: u64,
    pub failure_backoff_at_ms: Option<i64>,
    /// Why the most recent firing failed.
    pub last_failure: Option<String>,
    /// Why the most recent pass declined to fire.
    pub last_no_fire: Option<String>,
}

/// What a [`HistorianDurableState`] holds.
#[verifier::ext_equal]
pub struct HistorianDurableStateModel {
    pub state: HistorianPhase,
    pub firing_seq: u64,
    pub chunk_range: Option<HistorianChunkRange>,
    pub chunk_fingerprint: Seq<char>,
    pub producer_session_id: Option<Seq<char>>,
    pub producer_run_id: Option<Seq<char>>,
    pub fired_at_ms: Option<i64>,
    pub expected_revert_epoch: u64,
    pub failure_backoff_at_ms: Option<i64>,
    pub last_failure: Option<Seq<char>>,
    pub last_no_fire: Option<Seq<char>>,
}

impl View for HistorianDurableState {
    type V = HistorianDurableStateModel;

    open spec fn view(&self) -> HistorianDurableStateModel {
        HistorianDurableStateModel {
            state: self.state,
            firing_seq: self.firing_seq,
            chunk_range: opt_view(self.chunk_range),
            chunk_fingerprint: self.chunk_fingerprint@,
            producer_session_id: opt_view(self.producer_session_id),
            producer_run_id: opt_view(self.producer_run_id),
            fired_at_ms: opt_view(self.fired_at_ms),
            expected_revert_epoch: self.expected_revert_epoch,
            failure_backoff_at_ms: opt_view(self.failure_backoff_at_ms),
            last_failure: opt_view(self.last_failure),
            last_no_fire: opt_view(self.last_no_fire),
        }
    }
}

impl Row for HistorianDurableState {
    fn dup(&self) -> (r: Self) {
        HistorianDurableState {
            state: self.state,
            firing_seq: self.firing_seq,
            chunk_range: opt_dup(&self.chunk_range),
            chunk_fingerprint: self.chunk_fingerprint.clone(),
            producer_session_id: opt_dup(&self.producer_session_id),
            producer_run_id: opt_dup(&self.producer_run_id),
            fired_at_ms: opt_dup(&self.fired_at_ms),
            expected_revert_epoch: self.expected_revert_epoch,
            failure_backoff_at_ms: opt_dup(&self.failure_backoff_at_ms),
            last_failure: opt_dup(&self.last_failure),
            last_no_fire: opt_dup(&self.last_no_fire),
        }
    }

    fn same(&self, other: &Self) -> (r: bool) {
        self.state == other.state
            && self.firing_seq == other.firing_seq
            && opt_same(&self.chunk_range, &other.chunk_range)
            && self.chunk_fingerprint == other.chunk_fingerprint
            && opt_same(&self.producer_session_id, &other.producer_session_id)
            && opt_same(&self.producer_run_id, &other.producer_run_id)
            && opt_same(&self.fired_at_ms, &other.fired_at_ms)
            && self.expected_revert_epoch == other.expected_revert_epoch
            && opt_same(&self.failure_backoff_at_ms, &other.failure_backoff_at_ms)
            && opt_same(&self.last_failure, &other.last_failure)
            && opt_same(&self.last_no_fire, &other.last_no_fire)
    }
}

impl Clone for HistorianDurableState {
    fn clone(&self) -> (r: Self)
        ensures
            r@ == self@,
    {
        self.dup()
    }
}

/// The historian state of a session that never fired.
pub open spec fn fresh_historian() -> HistorianDurableStateModel {
    HistorianDurableStateModel {
        state: HistorianPhase::Idle,
        firing_seq: 0,
        chunk_range: None,
        chunk_fingerprint: Seq::empty(),
        producer_session_id: None,
        producer_run_id: None,
        fired_at_ms: None,
        expected_revert_epoch: 0,
        failure_backoff_at_ms: None,
        last_failure: None,
        last_no_fire: None,
    }
}

impl Default for HistorianDurableState {
    fn default() -> (r: Self)
        ensures
            r@ == fresh_historian(),
    {
        HistorianDurableState {
            state: HistorianPhase::Idle,
            firing_seq: 0,
            chunk_range: None,
            chunk_fingerprint: String::new(),
            producer_session_id: None,
            producer_run_id: None,
            fired_at_ms: None,
            expected_revert_epoch: 0,
            failure_backoff_at_ms: None,
            last_failure: None,
            last_no_fire: None,
        }
    }
}

/// The idle state that a successful publication leaves behind.
pub fn idle_historian_after_success(firing_seq: u64) -> (r: HistorianDurableState)
    ensures
        r@ == (HistorianDurableStateModel { firing_seq, ..fresh_historian() }),
{
    let mut r = HistorianDurableState::default();
    r.firing_seq = firing_seq;
    r
}

/// The provider usage that pressure bands are computed from.
#[derive(Debug, Clone, Copy, Default, PartialEq, Eq, Structural)]
pub struct ModuleUsage {
    pub current_total_input_tokens: u64,
    pub context_limit_tokens: u64,
}

impl View for ModuleUsage {
    type V = ModuleUsage;

    open spec fn view(&self) -> ModuleUsage {
        *self
    }
}

impl Row for ModuleUsage {
    fn dup(&self) -> (r: Self) {
        *self
    }

    fn same(&self, other: &Self) -> (r: bool) {
        *self == *other
    }
}

impl ModuleUsage {
    /// Whether either count is set.
    pub fn is_non_zero(&self) -> (r: bool)
        ensures
            r == (self.current_total_input_tokens != 0 || self.context_limit_tokens != 0),
    {
        self.current_total_input_tokens != 0 || self.context_limit_tokens != 0
    }
}

/// The intent to execute that a running tool call put off.
#[derive(Debug, Default, PartialEq, Eq)]
pub struct DeferredExecuteState {
    pub reason: String,
}

/// What a [`DeferredExecuteState`] holds.
#[verifier::ext_equal]
pub struct DeferredExecuteStateModel {
    pub reason: Seq<char>,
}

impl View for DeferredExecuteState {
    type V = DeferredExecuteStateModel;

    open spec fn view(&self) -> DeferredExecuteStateModel {
        DeferredExecuteStateModel {
            reason: self.reason@,
        }
    }
}

impl Row for DeferredExecuteState {
    fn dup(&self) -> (r: Self) {
        DeferredExecuteState {
            reason: self.reason.clone(),
        }
    }

    fn same(&self, other: &Self) -> (r: bool) {
        self.reason == other.reason
    }
}

impl Clone for DeferredExecuteState {
    fn clone(&self) -> (r: Self)
        ensures
            r@ == self@,
    {
        self.dup()
    }
}

/// The alarm for a request that shares nothing with the lineage its key holds.
#[derive(Debug, Default, PartialEq, Eq)]
pub struct PendingRewriteState {
    pub armed_at_ms: i64,
    pub absent_shape_fingerprint: String,
    pub absent_request_count: u64,
    pub last_present_at_ms: Option<i64>,
}

/// What a [`PendingRewriteState`] holds.
#[verifier::ext_equal]
pub struct PendingRewriteStateModel {
    pub armed_at_ms: i64,
    pub absent_shape_fingerprint: Seq<char>,
    pub absent_request_count: u64,
    pub last_present_at_ms: Option<i64>,
}

impl View for PendingRewriteState {
    type V = PendingRewriteStateModel;

    open spec fn view(&self) -> PendingRewriteStateModel {
        PendingRewriteStateModel {
            armed_at_ms: self.armed_at_ms,
            absent_shape_fingerprint: self.absent_shape_fingerprint@,
            absent_request_count: self.absent_request_count,
            last_present_at_ms: opt_view(self.last_present_at_ms),
        }
    }
}

impl Row for PendingRewriteState {
    fn dup(&self) -> (r: Self) {
        PendingRewriteState {
            armed_at_ms: self.armed_at_ms,
            absent_shape_fingerprint: self.absent_shape_fingerprint.clone(),
            absent_request_count: self.absent_request_count,
            last_present_at_ms: opt_dup(&self.last_present_at_ms),
        }
    }

    fn same(&self, other: &Self) -> (r: bool) {
        self.armed_at_ms == other.armed_at_ms
            && self.absent_shape_fingerprint == other.absent_shape_fingerprint
            && self.absent_request_count == other.absent_request_count
            && opt_same(&self.last_present_at_ms, &other.last_present_at_ms)
    }
}

impl Clone for PendingRewriteState {
    fn clone(&self) -> (r: Self)
        ensures
            r@ == self@,
    {
        self.dup()
    }
}

/// The identity of one block of a message.
#[derive(Debug, Default, PartialEq, Eq)]
pub struct BlockIdentity {
    pub kind_tag: String,
    pub byte_fingerprint: String,
}

/// What a [`BlockIdentity`] holds.
#[verifier::ext_equal]
pub struct BlockIdentityModel {
    pub kind_tag: Seq<char>,
    pub byte_fingerprint: Seq<char>,
}

impl View for BlockIdentity {
    type V = BlockIdentityModel;

    open spec fn view(&self) -> BlockIdentityModel {
        BlockIdentityModel {
            kind_tag: self.kind_tag@,
            byte_fingerprint: self.byte_fingerprint@,
        }
    }
}

impl Row for BlockIdentity {
    fn dup(&self) -> (r: Self) {
        BlockIdentity {
            kind_tag: self.kind_tag.clone(),
            byte_fingerprint: self.byte_fingerprint.clone(),
        }
    }

    fn same(&self, other: &Self) -> (r: bool) {
        self.kind_tag == other.kind_tag
            && self.byte_fingerprint == other.byte_fingerprint
    }
}

impl Clone for BlockIdentity {
    fn clone(&self) -> (r: Self)
        ensures
            r@ == self@,
    {
        self.dup()
    }
}

/// The ordered block identities of one message.
#[derive(Debug, Default, PartialEq, Eq)]
pub struct MidIdentity {
    pub mid: String,
    pub blocks: Vec<BlockIdentity>,
}

/// What a [`MidIdentity`] holds.
#[verifier::ext_equal]
pub struct MidIdentityModel {
    pub mid: Seq<char>,
    pub blocks: Seq<BlockIdentityModel>,
}

impl View for MidIdentity {
    type V = MidIdentityModel;

    open spec fn view(&self) -> MidIdentityModel {
        MidIdentityModel {
            mid: self.mid@,
            blocks: views(self.blocks@),
        }
    }
}

impl Row for MidIdentity {
    fn dup(&self) -> (r: Self) {
        MidIdentity {
            mid: self.mid.clone(),
            blocks: list_dup(&self.blocks),
        }
    }

    fn same(&self, other: &Self) -> (r: bool) {
        self.mid == other.mid
            && list_same(&self.blocks, &other.blocks)
    }
}

impl Clone for MidIdentity {
    fn clone(&self) -> (r: Self)
        ensures
            r@ == self@,
    {
        self.dup()
    }
}

/// The frozen pair of messages that replays the todo list at a fixed place.
#[derive(Debug, PartialEq, Eq)]
pub struct FrozenSyntheticTodoPair {
    pub call_id: String,
    /// The message that the pair follows; `None` when it follows the head blocks.
    pub anchor_mid: Option<String>,
    pub assistant_msg: CkWireMessage,
    pub tool_msg: CkWireMessage,
}

/// What a [`FrozenSyntheticTodoPair`] holds.
#[verifier::ext_equal]
pub struct FrozenSyntheticTodoPairModel {
    pub call_id: Seq<char>,
    pub anchor_mid: Option<Seq<char>>,
    pub assistant_msg: CkWireMessageModel,
    pub tool_msg: CkWireMessageModel,
}

impl View for FrozenSyntheticTodoPair {
    type V = FrozenSyntheticTodoPairModel;

    open spec fn view(&self) -> FrozenSyntheticTodoPairModel {
        FrozenSyntheticTodoPairModel {
            call_id: self.call_id@,
            anchor_mid: opt_view(self.anchor_mid),
            assistant_msg: self.assistant_msg@,
            tool_msg: self.tool_msg@,
        }
    }
}

impl Row for FrozenSyntheticTodoPair {
    fn dup(&self) -> (r: Self) {
        FrozenSyntheticTodoPair {
            call_id: self.call_id.clone(),
            anchor_mid: opt_dup(&self.anchor_mid),
            assistant_msg: self.assistant_msg.dup(),
            tool_msg: self.tool_msg.dup(),
        }
    }

    fn same(&self, other: &Self) -> (r: bool) {
        self.call_id == other.call_id
            && opt_same(&self.anchor_mid, &other.anchor_mid)
            && self.assistant_msg.same(&other.assistant_msg)
            && self.tool_msg.same(&other.tool_msg)
    }
}

impl Clone for FrozenSyntheticTodoPair {
    fn clone(&self) -> (r: Self)
        ensures
            r@ == self@,
    {
        self.dup()
    }
}

impl FrozenSyntheticTodoPair {
    /// Reads a pair that was stored. Its messages were generated, so none keeps the text
    /// that it was read from.
    pub fn thawed(
        call_id: String,
        anchor_mid: Option<String>,
        assistant_msg: CkWireMessage,
        tool_msg: CkWireMessage,
    ) -> (r: Self)
        ensures
            r@ == (FrozenSyntheticTodoPairModel {
                call_id: call_id@,
                anchor_mid: opt_view(anchor_mid),
                assistant_msg: assistant_msg@.fully_typed(),
                tool_msg: tool_msg@.fully_typed(),
            }),
    {
        let mut pair = FrozenSyntheticTodoPair { call_id, anchor_mid, assistant_msg, tool_msg };
        pair.assistant_msg.mark_fully_typed();
        pair.tool_msg.mark_fully_typed();
        pair
    }
}

/// The durable metadata of a session.
#[derive(Debug, PartialEq, Eq)]
pub struct ModuleMeta {
    /// A baseline has been rendered at least once.
    pub initialized: bool,
    /// The render configuration of the last full fold.
    pub last_render_config: String,
    /// The last ordinal that the rendered history covers.
    pub coverage_ordinal: Option<u64>,
    /// The last todo list captured on a pass that re-rendered.
    pub last_todo_state: Option<String>,
    pub guidance_date: String,
    /// Raised by one with every cut that a revert forces.
    pub revert_epoch: u64,
    /// What the most recent cut dropped.
    pub last_recut: Option<String>,
    pub pending_rewrite: Option<PendingRewriteState>,
    pub pending_rewrite_trip_count: u32,
    pub pending_rewrite_ambiguous: bool,
    pub pending_rewrite_last_failure: Option<String>,
    pub synthetic_todo: Option<FrozenSyntheticTodoPair>,
    /// Digest of what the frozen delta block was rendered from.
    pub m1_revision: u64,
    /// The highest compartment folded into the baseline.
    pub folded_compartment_seq: i64,
    pub coverage_start_ordinal: Option<u64>,
    pub coverage_compartment_seq: Option<i64>,
    /// The memories that the frozen baseline shows.
    pub rendered_memory_ids: Vec<i64>,
    pub memory_mutation_cursor: i64,
    pub max_memory_id: i64,
    /// The clock that expiry is judged by until the next full fold.
    pub expiry_cutoff_ms: i64,
    pub historian: HistorianDurableState,
    pub publication_floor_ordinal: Option<u64>,
    /// Ordered block identities, one entry per message id.
    pub block_identity_by_mid: Vec<MidIdentity>,
    pub newest_live_block_id: Option<String>,
    pub last_usage: Option<ModuleUsage>,
    pub last_serializer_profile: String,
    pub cc_u1_active: bool,
    pub channel1_last_nudge_undropped: i64,
    pub channel1_last_nudge_level: String,
    pub channel1_reduce_suppressed: bool,
    /// Highest tail ordinal seen by an execute pass.
    pub last_execute_ordinal: u64,
    /// Input tokens at the last emergency pass that dropped something.
    pub last_emergency_input_sample: u64,
    pub has_prior_emergency_drop: bool,
    pub deferred_execute_state: Option<DeferredExecuteState>,
    pub emergency_drain_active: bool,
    pub emergency_drain_entered_at_ms: i64,
    pub last_committed_pass_at_ms: i64,
    /// The shadow lineage that this record belongs to.
    pub shadow_generation: u64,
    /// Number of accepted shadow state syncs.
    pub shadow_seq: u64,
    /// Set by the first divergence that quarantines; cleared by a reset only.
    pub shadow_quarantined: bool,
    pub shadow_quarantined_pass_count: u64,
    /// The sender's last acknowledged watermarks, as JSON text.
    pub shadow_acked_watermarks: String,
}

/// What a [`ModuleMeta`] holds.
#[verifier::ext_equal]
pub struct ModuleMetaModel {
    pub initialized: bool,
    pub last_render_config: Seq<char>,
    pub coverage_ordinal: Option<u64>,
    pub last_todo_state: Option<Seq<char>>,
    pub guidance_date: Seq<char>,
    pub revert_epoch: u64,
    pub last_recut: Option<Seq<char>>,
    pub pending_rewrite: Option<PendingRewriteStateModel>,
    pub pending_rewrite_trip_count: u32,
    pub pending_rewrite_ambiguous: bool,
    pub pending_rewrite_last_failure: Option<Seq<char>>,
    pub synthetic_todo: Option<FrozenSyntheticTodoPairModel>,
    pub m1_revision: u64,
    pub folded_compartment_seq: i64,
    pub coverage_start_ordinal: Option<u64>,
    pub coverage_compartment_seq: Option<i64>,
    pub rendered_memory_ids: Seq<i64>,
    pub memory_mutation_cursor: i64,
    pub max_memory_id: i64,
    pub expiry_cutoff_ms: i64,
    pub historian: HistorianDurableStateModel,
    pub publication_floor_ordinal: Option<u64>,
    pub block_identity_by_mid: Seq<MidIdentityModel>,
    pub newest_live_block_id: Option<Seq<char>>,
    pub last_usage: Option<ModuleUsage>,
    pub last_serializer_profile: Seq<char>,
    pub cc_u1_active: bool,
    pub channel1_last_nudge_undropped: i64,
    pub channel1_last_nudge_level: Seq<char>,
    pub channel1_reduce_suppressed: bool,
    pub last_execute_ordinal: u64,
    pub last_emergency_input_sample: u64,
    pub has_prior_emergency_drop: bool,
    pub deferred_execute_state: Option<DeferredExecuteStateModel>,
    pub emergency_drain_active: bool,
    pub emergency_drain_entered_at_ms: i64,
    pub last_committed_pass_at_ms: i64,
    pub shadow_generation: u64,
    pub shadow_seq: u64,
    pub shadow_quarantined: bool,
    pub shadow_quarantined_pass_count: u64,
    pub shadow_acked_watermarks: Seq<char>,
}

impl View for ModuleMeta {
    type V = ModuleMetaModel;

    open spec fn view(&self) -> ModuleMetaModel {
        ModuleMetaModel {
            initialized: self.initialized,
            last_render_config: self.last_render_config@,
            coverage_ordinal: opt_view(self.coverage_ordinal),
            last_todo_state: opt_view(self.last_todo_state),
            guidance_date: self.guidance_date@,
            revert_epoch: self.revert_epoch,
            last_recut: opt_view(self.last_recut),
            pending_rewrite: opt_view(self.pending_rewrite),
            pending_rewrite_trip_count: self.pending_rewrite_trip_count,
            pending_rewrite_ambiguous: self.pending_rewrite_ambiguous,
            pending_rewrite_last_failure: opt_view(self.pending_rewrite_last_failure),
            synthetic_todo: opt_view(self.synthetic_todo),
            m1_revision: self.m1_revision,
            folded_compartment_seq: self.folded_compartment_seq,
            coverage_start_ordinal: opt_view(self.coverage_start_ordinal),
            coverage_compartment_seq: opt_view(self.coverage_compartment_seq),
            rendered_memory_ids: views(self.rendered_memory_ids@),
            memory_mutation_cursor: self.memory_mutation_cursor,
            max_memory_id: self.max_memory_id,
            expiry_cutoff_ms: self.expiry_cutoff_ms,
            historian: self.historian@,
            publication_floor_ordinal: opt_view(self.publication_floor_ordinal),
            block_identity_by_mid: views(self.block_identity_by_mid@),
            newest_live_block_id: opt_view(self.newest_live_block_id),
            last_usage: opt_view(self.last_usage),
            last_serializer_profile: self.last_serializer_profile@,
            cc_u1_active: self.cc_u1_active,
            channel1_last_nudge_undropped: self.channel1_last_nudge_undropped,
            channel1_last_nudge_level: self.channel1_last_nudge_level@,
            channel1_reduce_suppressed: self.channel1_reduce_suppressed,
            last_execute_ordinal: self.last_execute_ordinal,
            last_emergency_input_sample: self.last_emergency_input_sample,
            has_prior_emergency_drop: self.has_prior_emergency_drop,
            deferred_execute_state: opt_view(self.deferred_execute_state),
            emergency_drain_active: self.emergency_drain_active,
            emergency_drain_entered_at_ms: self.emergency_drain_entered_at_ms,
            last_committed_pass_at_ms: self.last_committed_pass_at_ms,
            shadow_generation: self.shadow_generation,
            shadow_seq: self.shadow_seq,
            shadow_quarantined: self.shadow_quarantined,
            shadow_quarantined_pass_count: self.shadow_quarantined_pass_count,
            shadow_acked_watermarks: self.shadow_acked_watermarks@,
        }
    }
}

impl Row for ModuleMeta {
    fn dup(&self) -> (r: Self) {
        ModuleMeta {
            initialized: self.initialized,
            last_render_config: self.last_render_config.clone(),
            coverage_ordinal: opt_dup(&self.coverage_ordinal),
            last_todo_state: opt_dup(&self.last_todo_state),
            guidance_date: self.guidance_date.clone(),
            revert_epoch: self.revert_epoch,
            last_recut: opt_dup(&self.last_recut),
            pending_rewrite: opt_dup(&self.pending_rewrite),
            pending_rewrite_trip_count: self.pending_rewrite_trip_count,
            pending_rewrite_ambiguous: self.pending_rewrite_ambiguous,
            pending_rewrite_last_failure: opt_dup(&self.pending_rewrite_last_failure),
            synthetic_todo: opt_dup(&self.synthetic_todo),
            m1_revision: self.m1_revision,
            folded_compartment_seq: self.folded_compartment_seq,
            coverage_start_ordinal: opt_dup(&self.coverage_start_ordinal),
            coverage_compartment_seq: opt_dup(&self.coverage_compartment_seq),
            rendered_memory_ids: list_dup(&self.rendered_memory_ids),
            memory_mutation_cursor: self.memory_mutation_cursor,
            max_memory_id: self.max_memory_id,
            expiry_cutoff_ms: self.expiry_cutoff_ms,
            historian: self.historian.dup(),
            publication_floor_ordinal: opt_dup(&self.publication_floor_ordinal),
            block_identity_by_mid: list_dup(&self.block_identity_by_mid),
            newest_live_block_id: opt_dup(&self.newest_live_block_id),
            last_usage: opt_dup(&self.last_usage),
            last_serializer_profile: self.last_serializer_profile.clone(),
            cc_u1_active: self.cc_u1_active,
            channel1_last_nudge_undropped: self.channel1_last_nudge_undropped,
            channel1_last_nudge_level: self.channel1_last_nudge_level.clone(),
            channel1_reduce_suppressed: self.channel1_reduce_suppressed,
            last_execute_ordinal: self.last_execute_ordinal,
            last_emergency_input_sample: self.last_emergency_input_sample,
            has_prior_emergency_drop: self.has_prior_emergency_drop,
            deferred_execute_state: opt_dup(&self.deferred_execute_state),
            emergency_drain_active: self.emergency_drain_active,
            emergency_drain_entered_at_ms: self.emergency_drain_entered_at_ms,
            last_committed_pass_at_ms: self.last_committed_pass_at_ms,
            shadow_generation: self.shadow_generation,
            shadow_seq: self.shadow_seq,
            shadow_quarantined: self.shadow_quarantined,
            shadow_quarantined_pass_count: self.shadow_quarantined_pass_count,
            shadow_acked_watermarks: self.shadow_acked_watermarks.clone(),
        }
    }

    fn same(&self, other: &Self) -> (r: bool) {
        self.initialized == other.initialized
            && self.last_render_config == other.last_render_config
            && opt_same(&self.coverage_ordinal, &other.coverage_ordinal)
            && opt_same(&self.last_todo_state, &other.last_todo_state)
            && self.guidance_date == other.guidance_date
            && self.revert_epoch == other.revert_epoch
            && opt_same(&self.last_recut, &other.last_recut)
            && opt_same(&self.pending_rewrite, &other.pending_rewrite)
            && self.pending_rewrite_trip_count == other.pending_rewrite_trip_count
            && self.pending_rewrite_ambiguous == other.pending_rewrite_ambiguous
            && opt_same(&self.pending_rewrite_last_failure, &other.pending_rewrite_last_failure)
            && opt_same(&self.synthetic_todo, &other.synthetic_todo)
            && self.m1_revision == other.m1_revision
            && self.folded_compartment_seq == other.folded_compartment_seq
            && opt_same(&self.coverage_start_ordinal, &other.coverage_start_ordinal)
            && opt_same(&self.coverage_compartment_seq, &other.coverage_compartment_seq)
            && list_same(&self.rendered_memory_ids, &other.rendered_memory_ids)
            && self.memory_mutation_cursor == other.memory_mutation_cursor
            && self.max_memory_id == other.max_memory_id
            && self.expiry_cutoff_ms == other.expiry_cutoff_ms
            && self.historian.same(&other.historian)
            && opt_same(&self.publication_floor_ordinal, &other.publication_floor_ordinal)
            && list_same(&self.block_identity_by_mid, &other.block_identity_by_mid)
            && opt_same(&self.newest_live_block_id, &other.newest_live_block_id)
            && opt_same(&self.last_usage, &other.last_usage)
            && self.last_serializer_profile == other.last_serializer_profile
            && self.cc_u1_active == other.cc_u1_active
            && self.channel1_last_nudge_undropped == other.channel1_last_nudge_undropped
            && self.channel1_last_nudge_level == other.channel1_last_nudge_level
            && self.channel1_reduce_suppressed == other.channel1_reduce_suppressed
            && self.last_execute_ordinal == other.last_execute_ordinal
            && self.last_emergency_input_sample == other.last_emergency_input_sample
            && self.has_prior_emergency_drop == other.has_prior_emergency_drop
            && opt_same(&self.deferred_execute_state, &other.deferred_execute_state)
            && self.emergency_drain_active == other.emergency_drain_active
            && self.emergency_drain_entered_at_ms == other.emergency_drain_entered_at_ms
            && self.last_committed_pass_at_ms == other.last_committed_pass_at_ms
            && self.shadow_generation == other.shadow_generation
            && self.shadow_seq == other.shadow_seq
            && self.shadow_quarantined == other.shadow_quarantined
            && self.shadow_quarantined_pass_count == other.shadow_quarantined_pass_count
            && self.shadow_acked_watermarks == other.shadow_acked_watermarks
    }
}

impl Clone for ModuleMeta {
    fn clone(&self) -> (r: Self)
        ensures
            r@ == self@,
    {
        self.dup()
    }
}

/// The metadata of a session that was never seen.
pub open spec fn fresh_meta() -> ModuleMetaModel {
    ModuleMetaModel {
        initialized: false,
        last_render_config: Seq::empty(),
        coverage_ordinal: None,
        last_todo_state: None,
        guidance_date: Seq::empty(),
        revert_epoch: 0,
        last_recut: None,
        pending_rewrite: None,
        pending_rewrite_trip_count: 0,
        pending_rewrite_ambiguous: false,
        pending_rewrite_last_failure: None,
        synthetic_todo: None,
        m1_revision: 0,
        folded_compartment_seq: 0,
        coverage_start_ordinal: None,
        coverage_compartment_seq: None,
        rendered_memory_ids: Seq::empty(),
        memory_mutation_cursor: 0,
        max_memory_id: 0,
        expiry_cutoff_ms: 0,
        historian: fresh_historian(),
        publication_floor_ordinal: None,
        block_identity_by_mid: Seq::empty(),
        newest_live_block_id: None,
        last_usage: None,
        last_serializer_profile: Seq::empty(),
        cc_u1_active: false,
        channel1_last_nudge_undropped: 0,
        channel1_last_nudge_level: Seq::empty(),
        channel1_reduce_suppressed: false,
        last_execute_ordinal: 0,
        last_emergency_input_sample: 0,
        has_prior_emergency_drop: false,
        deferred_execute_state: None,
        emergency_drain_active: false,
        emergency_drain_entered_at_ms: 0,
        last_committed_pass_at_ms: 0,
        shadow_generation: 0,
        shadow_seq: 0,
        shadow_quarantined: false,
        shadow_quarantined_pass_count: 0,
        shadow_acked_watermarks: "null"@,
    }
}

impl Default for ModuleMeta {
    fn default() -> (r: Self)
        ensures
            r@ == fresh_meta(),
    {
        broadcast use crate::rows::group_views;

        ModuleMeta {
            initialized: false,
            last_render_config: String::new(),
            coverage_ordinal: None,
            last_todo_state: None,
            guidance_date: String::new(),
            revert_epoch: 0,
            last_recut: None,
            pending_rewrite: None,
            pending_rewrite_trip_count: 0,
            pending_rewrite_ambiguous: false,
            pending_rewrite_last_failure: None,
            synthetic_todo: None,
            m1_revision: 0,
            folded_compartment_seq: 0,
            coverage_start_ordinal: None,
            coverage_compartment_seq: None,
            rendered_memory_ids: Vec::new(),
            memory_mutation_cursor: 0,
            max_memory_id: 0,
            expiry_cutoff_ms: 0,
            historian: HistorianDurableState::default(),
            publication_floor_ordinal: None,
            block_identity_by_mid: Vec::new(),
            newest_live_block_id: None,
            last_usage: None,
            last_serializer_profile: String::new(),
            cc_u1_active: false,
            channel1_last_nudge_undropped: 0,
            channel1_last_nudge_level: String::new(),
            channel1_reduce_suppressed: false,
            last_execute_ordinal: 0,
            last_emergency_input_sample: 0,
            has_prior_emergency_drop: false,
            deferred_execute_state: None,
            emergency_drain_active: false,
            emergency_drain_entered_at_ms: 0,
            last_committed_pass_at_ms: 0,
            shadow_generation: 0,
            shadow_seq: 0,
            shadow_quarantined: false,
            shadow_quarantined_pass_count: 0,
            shadow_acked_watermarks: "null".to_owned(),
        }
    }
}

/// One rendered unit that is replayed byte for byte until it is replaced.
#[derive(Debug, Default, PartialEq, Eq)]
pub struct FrozenUnit {
    pub key: String,
    pub kind: String,
    pub frozen_payload: String,
    pub durability_class: String,
    pub reset_rule: String,
}

/// What a [`FrozenUnit`] holds.
#[verifier::ext_equal]
pub struct FrozenUnitModel {
    pub key: Seq<char>,
    pub kind: Seq<char>,
    pub frozen_payload: Seq<char>,
    pub durability_class: Seq<char>,
    pub reset_rule: Seq<char>,
}

impl View for FrozenUnit {
    type V = FrozenUnitModel;

    open spec fn view(&self) -> FrozenUnitModel {
        FrozenUnitModel {
            key: self.key@,
            kind: self.kind@,
            frozen_payload: self.frozen_payload@,
            durability_class: self.durability_class@,
            reset_rule: self.reset_rule@,
        }
    }
}

impl Row for FrozenUnit {
    fn dup(&self) -> (r: Self) {
        FrozenUnit {
            key: self.key.clone(),
            kind: self.kind.clone(),
            frozen_payload: self.frozen_payload.clone(),
            durability_class: self.durability_class.clone(),
            reset_rule: self.reset_rule.clone(),
        }
    }

    fn same(&self, other: &Self) -> (r: bool) {
        self.key == other.key
            && self.kind == other.kind
            && self.frozen_payload == other.frozen_payload
            && self.durability_class == other.durability_class
            && self.reset_rule == other.reset_rule
    }
}

impl Clone for FrozenUnit {
    fn clone(&self) -> (r: Self)
        ensures
            r@ == self@,
    {
        self.dup()
    }
}

/// The cache state of a session: what is frozen and where the history ends.
#[derive(Debug, PartialEq, Eq)]
pub struct CoreState {
    /// The block id that ends the covered history; empty before the first fold.
    pub boundary_id: String,
    /// The boundary went missing and the history has to be rendered anew.
    pub reconcile_pending: bool,
    pub version: u64,
    pub frozen_units: Vec<FrozenUnit>,
    /// Queued changes, each as JSON text.
    pub pending_changes: Vec<String>,
}

/// What a [`CoreState`] holds.
#[verifier::ext_equal]
pub struct CoreStateModel {
    pub boundary_id: Seq<char>,
    pub reconcile_pending: bool,
    pub version: u64,
    pub frozen_units: Seq<FrozenUnitModel>,
    pub pending_changes: Seq<Seq<char>>,
}

impl View for CoreState {
    type V = CoreStateModel;

    open spec fn view(&self) -> CoreStateModel {
        CoreStateModel {
            boundary_id: self.boundary_id@,
            reconcile_pending: self.reconcile_pending,
            version: self.version,
            frozen_units: views(self.frozen_units@),
            pending_changes: views(self.pending_changes@),
        }
    }
}

impl Row for CoreState {
    fn dup(&self) -> (r: Self) {
        CoreState {
            boundary_id: self.boundary_id.clone(),
            reconcile_pending: self.reconcile_pending,
            version: self.version,
            frozen_units: list_dup(&self.frozen_units),
            pending_changes: list_dup(&self.pending_changes),
        }
    }

    fn same(&self, other: &Self) -> (r: bool) {
        self.boundary_id == other.boundary_id
            && self.reconcile_pending == other.reconcile_pending
            && self.version == other.version
            && list_same(&self.frozen_units, &other.frozen_units)
            && list_same(&self.pending_changes, &other.pending_changes)
    }
}

impl Clone for CoreState {
    fn clone(&self) -> (r: Self)
        ensures
            r@ == self@,
    {
        self.dup()
    }
}

/// The cache state of a session that was never seen.
pub open spec fn fresh_core() -> CoreStateModel {
    CoreStateModel {
        boundary_id: Seq::empty(),
        reconcile_pending: false,
        version: 0,
        frozen_units: Seq::empty(),
        pending_changes: Seq::empty(),
    }
}

impl Default for CoreState {
    fn default() -> (r: Self)
        ensures
            r@ == fresh_core(),
    {
        broadcast use crate::rows::group_views;

        CoreState {
            boundary_id: String::new(),
            reconcile_pending: false,
            version: 0,
            frozen_units: Vec::new(),
            pending_changes: Vec::new(),
        }
    }
}

} // verus!
