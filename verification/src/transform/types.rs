//! The values that a transform pass works on.

use vstd::prelude::*;

use crate::meta::{
    FrozenUnit, FrozenUnitModel, MidIdentity, MidIdentityModel, ModuleUsage,
};
use crate::rows::{list_dup, list_same, opt_dup, opt_same, opt_view, views, Row};
use crate::wire::{CkWireBlock, CkWireBlockModel, CkWireMessage, CkWireMessageModel};

verus! {

// --- the conversation -----------------------------------------------------------------

/// A message of the conversation as it comes in: the message with its id and its place.
#[derive(Debug, PartialEq, Eq)]
pub struct CkIngressMessage {
    pub mid: String,
    pub ordinal: u64,
    pub ck: CkWireMessage,
}

/// What a [`CkIngressMessage`] holds.
#[verifier::ext_equal]
pub struct CkIngressMessageModel {
    pub mid: Seq<char>,
    pub ordinal: u64,
    pub ck: CkWireMessageModel,
}

impl View for CkIngressMessage {
    type V = CkIngressMessageModel;

    open spec fn view(&self) -> CkIngressMessageModel {
        CkIngressMessageModel {
            mid: self.mid@,
            ordinal: self.ordinal,
            ck: self.ck@,
        }
    }
}

impl Row for CkIngressMessage {
    fn dup(&self) -> (r: Self) {
        CkIngressMessage {
            mid: self.mid.clone(),
            ordinal: self.ordinal,
            ck: self.ck.dup(),
        }
    }

    fn same(&self, other: &Self) -> (r: bool) {
        self.mid == other.mid
            && self.ordinal == other.ordinal
            && self.ck.same(&other.ck)
    }
}

impl Clone for CkIngressMessage {
    fn clone(&self) -> (r: Self)
        ensures
            r@ == self@,
    {
        self.dup()
    }
}

/// One content block of a message, flattened out of it.
#[derive(Debug, PartialEq, Eq)]
pub struct FlatBlock {
    /// The message id, a `#` and the index of the block.
    pub id: String,
    pub mid: String,
    pub ordinal: u64,
    pub block_index: usize,
    pub synthetic: bool,
    pub role: String,
    pub kind_tag: String,
    pub provider_executed: bool,
    /// What pairs a tool call with its result.
    pub arc_id: Option<String>,
    /// The file that a tool call names.
    pub file_path: Option<String>,
    /// The bytes that the block takes in a prompt.
    pub bytes: String,
    pub wire: CkWireBlock,
}

/// What a [`FlatBlock`] holds.
#[verifier::ext_equal]
pub struct FlatBlockModel {
    pub id: Seq<char>,
    pub mid: Seq<char>,
    pub ordinal: u64,
    pub block_index: usize,
    pub synthetic: bool,
    pub role: Seq<char>,
    pub kind_tag: Seq<char>,
    pub provider_executed: bool,
    pub arc_id: Option<Seq<char>>,
    pub file_path: Option<Seq<char>>,
    pub bytes: Seq<char>,
    pub wire: CkWireBlockModel,
}

impl View for FlatBlock {
    type V = FlatBlockModel;

    open spec fn view(&self) -> FlatBlockModel {
        FlatBlockModel {
            id: self.id@,
            mid: self.mid@,
            ordinal: self.ordinal,
            block_index: self.block_index,
            synthetic: self.synthetic,
            role: self.role@,
            kind_tag: self.kind_tag@,
            provider_executed: self.provider_executed,
            arc_id: opt_view(self.arc_id),
            file_path: opt_view(self.file_path),
            bytes: self.bytes@,
            wire: self.wire@,
        }
    }
}

impl Row for FlatBlock {
    fn dup(&self) -> (r: Self) {
        FlatBlock {
            id: self.id.clone(),
            mid: self.mid.clone(),
            ordinal: self.ordinal,
            block_index: self.block_index,
            synthetic: self.synthetic,
            role: self.role.clone(),
            kind_tag: self.kind_tag.clone(),
            provider_executed: self.provider_executed,
            arc_id: opt_dup(&self.arc_id),
            file_path: opt_dup(&self.file_path),
            bytes: self.bytes.clone(),
            wire: self.wire.dup(),
        }
    }

    fn same(&self, other: &Self) -> (r: bool) {
        self.id == other.id
            && self.mid == other.mid
            && self.ordinal == other.ordinal
            && self.block_index == other.block_index
            && self.synthetic == other.synthetic
            && self.role == other.role
            && self.kind_tag == other.kind_tag
            && self.provider_executed == other.provider_executed
            && opt_same(&self.arc_id, &other.arc_id)
            && opt_same(&self.file_path, &other.file_path)
            && self.bytes == other.bytes
            && self.wire.same(&other.wire)
    }
}

impl Clone for FlatBlock {
    fn clone(&self) -> (r: Self)
        ensures
            r@ == self@,
    {
        self.dup()
    }
}

/// A conversation, flattened: its blocks in order and the block identities of its messages.
#[derive(Debug, Default, PartialEq, Eq)]
pub struct FlatProjection {
    pub blocks: Vec<FlatBlock>,
    pub identity_by_mid: Vec<MidIdentity>,
}

/// What a [`FlatProjection`] holds.
#[verifier::ext_equal]
pub struct FlatProjectionModel {
    pub blocks: Seq<FlatBlockModel>,
    pub identity_by_mid: Seq<MidIdentityModel>,
}

impl View for FlatProjection {
    type V = FlatProjectionModel;

    open spec fn view(&self) -> FlatProjectionModel {
        FlatProjectionModel {
            blocks: views(self.blocks@),
            identity_by_mid: views(self.identity_by_mid@),
        }
    }
}

impl Row for FlatProjection {
    fn dup(&self) -> (r: Self) {
        FlatProjection {
            blocks: list_dup(&self.blocks),
            identity_by_mid: list_dup(&self.identity_by_mid),
        }
    }

    fn same(&self, other: &Self) -> (r: bool) {
        list_same(&self.blocks, &other.blocks)
            && list_same(&self.identity_by_mid, &other.identity_by_mid)
    }
}

impl Clone for FlatProjection {
    fn clone(&self) -> (r: Self)
        ensures
            r@ == self@,
    {
        self.dup()
    }
}

/// A request for a transform pass.
#[derive(Debug, Default, PartialEq, Eq)]
pub struct TransformRequest {
    pub kind: String,
    pub v: u32,
    pub serializer_profile: String,
    pub session_id: String,
    pub render_config: String,
    /// Names the whole conversation; echoed, never read.
    pub full_array_fingerprint: Option<String>,
    pub messages: Vec<CkIngressMessage>,
    /// A partial conversation, as JSON text. It is never accepted.
    pub tail_delta: Option<String>,
    pub usage: Option<ModuleUsage>,
    pub provider_error: Option<String>,
}

/// What a [`TransformRequest`] holds.
#[verifier::ext_equal]
pub struct TransformRequestModel {
    pub kind: Seq<char>,
    pub v: u32,
    pub serializer_profile: Seq<char>,
    pub session_id: Seq<char>,
    pub render_config: Seq<char>,
    pub full_array_fingerprint: Option<Seq<char>>,
    pub messages: Seq<CkIngressMessageModel>,
    pub tail_delta: Option<Seq<char>>,
    pub usage: Option<ModuleUsage>,
    pub provider_error: Option<Seq<char>>,
}

impl View for TransformRequest {
    type V = TransformRequestModel;

    open spec fn view(&self) -> TransformRequestModel {
        TransformRequestModel {
            kind: self.kind@,
            v: self.v,
            serializer_profile: self.serializer_profile@,
            session_id: self.session_id@,
            render_config: self.render_config@,
            full_array_fingerprint: opt_view(self.full_array_fingerprint),
            messages: views(self.messages@),
            tail_delta: opt_view(self.tail_delta),
            usage: opt_view(self.usage),
            provider_error: opt_view(self.provider_error),
        }
    }
}

impl Row for TransformRequest {
    fn dup(&self) -> (r: Self) {
        TransformRequest {
            kind: self.kind.clone(),
            v: self.v,
            serializer_profile: self.serializer_profile.clone(),
            session_id: self.session_id.clone(),
            render_config: self.render_config.clone(),
            full_array_fingerprint: opt_dup(&self.full_array_fingerprint),
            messages: list_dup(&self.messages),
            tail_delta: opt_dup(&self.tail_delta),
            usage: opt_dup(&self.usage),
            provider_error: opt_dup(&self.provider_error),
        }
    }

    fn same(&self, other: &Self) -> (r: bool) {
        self.kind == other.kind
            && self.v == other.v
            && self.serializer_profile == other.serializer_profile
            && self.session_id == other.session_id
            && self.render_config == other.render_config
            && opt_same(&self.full_array_fingerprint, &other.full_array_fingerprint)
            && list_same(&self.messages, &other.messages)
            && opt_same(&self.tail_delta, &other.tail_delta)
            && opt_same(&self.usage, &other.usage)
            && opt_same(&self.provider_error, &other.provider_error)
    }
}

impl Clone for TransformRequest {
    fn clone(&self) -> (r: Self)
        ensures
            r@ == self@,
    {
        self.dup()
    }
}

/// An item of the flat request format that older callers send.
#[derive(Debug, Default, PartialEq, Eq)]
pub struct LegacyCkItemWire {
    pub id: String,
    pub ordinal: u64,
    pub bytes: String,
    pub synthetic: bool,
}

/// What a [`LegacyCkItemWire`] holds.
#[verifier::ext_equal]
pub struct LegacyCkItemWireModel {
    pub id: Seq<char>,
    pub ordinal: u64,
    pub bytes: Seq<char>,
    pub synthetic: bool,
}

impl View for LegacyCkItemWire {
    type V = LegacyCkItemWireModel;

    open spec fn view(&self) -> LegacyCkItemWireModel {
        LegacyCkItemWireModel {
            id: self.id@,
            ordinal: self.ordinal,
            bytes: self.bytes@,
            synthetic: self.synthetic,
        }
    }
}

impl Row for LegacyCkItemWire {
    fn dup(&self) -> (r: Self) {
        LegacyCkItemWire {
            id: self.id.clone(),
            ordinal: self.ordinal,
            bytes: self.bytes.clone(),
            synthetic: self.synthetic,
        }
    }

    fn same(&self, other: &Self) -> (r: bool) {
        self.id == other.id
            && self.ordinal == other.ordinal
            && self.bytes == other.bytes
            && self.synthetic == other.synthetic
    }
}

impl Clone for LegacyCkItemWire {
    fn clone(&self) -> (r: Self)
        ensures
            r@ == self@,
    {
        self.dup()
    }
}

/// A request as it comes over the wire: with messages, or with items of the flat format.
#[derive(Debug, Default, PartialEq, Eq)]
pub struct TransformRequestWire {
    pub kind: String,
    pub v: u32,
    pub serializer_profile: Option<String>,
    pub session_id: String,
    pub render_config: String,
    pub full_array_fingerprint: Option<String>,
    pub messages: Vec<CkIngressMessage>,
    pub items: Vec<LegacyCkItemWire>,
    pub tail_delta: Option<String>,
    pub usage: Option<ModuleUsage>,
    pub provider_error: Option<String>,
}

/// What a [`TransformRequestWire`] holds.
#[verifier::ext_equal]
pub struct TransformRequestWireModel {
    pub kind: Seq<char>,
    pub v: u32,
    pub serializer_profile: Option<Seq<char>>,
    pub session_id: Seq<char>,
    pub render_config: Seq<char>,
    pub full_array_fingerprint: Option<Seq<char>>,
    pub messages: Seq<CkIngressMessageModel>,
    pub items: Seq<LegacyCkItemWireModel>,
    pub tail_delta: Option<Seq<char>>,
    pub usage: Option<ModuleUsage>,
    pub provider_error: Option<Seq<char>>,
}

impl View for TransformRequestWire {
    type V = TransformRequestWireModel;

    open spec fn view(&self) -> TransformRequestWireModel {
        TransformRequestWireModel {
            kind: self.kind@,
            v: self.v,
            serializer_profile: opt_view(self.serializer_profile),
            session_id: self.session_id@,
            render_config: self.render_config@,
            full_array_fingerprint: opt_view(self.full_array_fingerprint),
            messages: views(self.messages@),
            items: views(self.items@),
            tail_delta: opt_view(self.tail_delta),
            usage: opt_view(self.usage),
            provider_error: opt_view(self.provider_error),
        }
    }
}

// --- what the deciders say ------------------------------------------------------------

/// A delta block and the digest of what it was rendered from; zero stands for no delta.
#[derive(Debug, Default, PartialEq, Eq)]
pub struct M1Content {
    pub revision: u64,
    pub body: String,
}

/// What a [`M1Content`] holds.
#[verifier::ext_equal]
pub struct M1ContentModel {
    pub revision: u64,
    pub body: Seq<char>,
}

impl View for M1Content {
    type V = M1ContentModel;

    open spec fn view(&self) -> M1ContentModel {
        M1ContentModel {
            revision: self.revision,
            body: self.body@,
        }
    }
}

impl Row for M1Content {
    fn dup(&self) -> (r: Self) {
        M1Content {
            revision: self.revision,
            body: self.body.clone(),
        }
    }

    fn same(&self, other: &Self) -> (r: bool) {
        self.revision == other.revision
            && self.body == other.body
    }
}

impl Clone for M1Content {
    fn clone(&self) -> (r: Self)
        ensures
            r@ == self@,
    {
        self.dup()
    }
}

/// The decision to replace a block of the tail by a shorter text.
#[derive(Debug, Default, PartialEq, Eq)]
pub struct ReductionDecision {
    pub target_id: String,
    pub kind: String,
    pub payload: String,
}

/// What a [`ReductionDecision`] holds.
#[verifier::ext_equal]
pub struct ReductionDecisionModel {
    pub target_id: Seq<char>,
    pub kind: Seq<char>,
    pub payload: Seq<char>,
}

impl View for ReductionDecision {
    type V = ReductionDecisionModel;

    open spec fn view(&self) -> ReductionDecisionModel {
        ReductionDecisionModel {
            target_id: self.target_id@,
            kind: self.kind@,
            payload: self.payload@,
        }
    }
}

impl Row for ReductionDecision {
    fn dup(&self) -> (r: Self) {
        ReductionDecision {
            target_id: self.target_id.clone(),
            kind: self.kind.clone(),
            payload: self.payload.clone(),
        }
    }

    fn same(&self, other: &Self) -> (r: bool) {
        self.target_id == other.target_id
            && self.kind == other.kind
            && self.payload == other.payload
    }
}

impl Clone for ReductionDecision {
    fn clone(&self) -> (r: Self)
        ensures
            r@ == self@,
    {
        self.dup()
    }
}

/// What the scheduler decided for a pass.
#[derive(Debug, Clone, Copy, Default, PartialEq, Eq, Structural)]
pub enum PassDecision {
    #[default]
    Defer,
    Execute,
    Force85,
    Emergency95,
}

/// How hard a selection of reductions may cut.
#[derive(Debug, Clone, Copy, Default, PartialEq, Eq, Structural)]
pub enum PassClass {
    #[default]
    Defer,
    Execute,
    EmergencyForce,
}

/// A decision to execute that was put off.
#[derive(Debug, Default, PartialEq, Eq)]
pub struct DeferredExecute {
    pub reason: String,
}

/// What a [`DeferredExecute`] holds.
#[verifier::ext_equal]
pub struct DeferredExecuteModel {
    pub reason: Seq<char>,
}

impl View for DeferredExecute {
    type V = DeferredExecuteModel;

    open spec fn view(&self) -> DeferredExecuteModel {
        DeferredExecuteModel {
            reason: self.reason@,
        }
    }
}

impl Row for DeferredExecute {
    fn dup(&self) -> (r: Self) {
        DeferredExecute {
            reason: self.reason.clone(),
        }
    }

    fn same(&self, other: &Self) -> (r: bool) {
        self.reason == other.reason
    }
}

impl Clone for DeferredExecute {
    fn clone(&self) -> (r: Self)
        ensures
            r@ == self@,
    {
        self.dup()
    }
}

/// Since when an emergency drains the tail, if one does.
#[derive(Debug, Clone, Copy, Default, PartialEq, Eq, Structural)]
pub struct LatchState {
    pub active_since_ms: Option<u64>,
}

impl View for LatchState {
    type V = LatchState;

    open spec fn view(&self) -> LatchState {
        *self
    }
}

impl Row for LatchState {
    fn dup(&self) -> (r: Self) {
        *self
    }

    fn same(&self, other: &Self) -> (r: bool) {
        *self == *other
    }
}

/// What the scheduler reads of the end of the conversation.
#[derive(Debug, Clone, Copy, Default, PartialEq, Eq, Structural)]
pub struct TailState {
    pub mid_tool_use: bool,
}

impl View for TailState {
    type V = TailState;

    open spec fn view(&self) -> TailState {
        *self
    }
}

impl Row for TailState {
    fn dup(&self) -> (r: Self) {
        *self
    }

    fn same(&self, other: &Self) -> (r: bool) {
        *self == *other
    }
}

/// What the scheduler says of a pass.
#[derive(Debug, Default, PartialEq, Eq)]
pub struct SchedulerOutcome {
    pub pass: PassDecision,
    pub idle_ttl_fired: bool,
    pub deferred_execute: Option<DeferredExecute>,
    pub drain_latch: LatchState,
}

/// What a [`SchedulerOutcome`] holds.
#[verifier::ext_equal]
pub struct SchedulerOutcomeModel {
    pub pass: PassDecision,
    pub idle_ttl_fired: bool,
    pub deferred_execute: Option<DeferredExecuteModel>,
    pub drain_latch: LatchState,
}

impl View for SchedulerOutcome {
    type V = SchedulerOutcomeModel;

    open spec fn view(&self) -> SchedulerOutcomeModel {
        SchedulerOutcomeModel {
            pass: self.pass,
            idle_ttl_fired: self.idle_ttl_fired,
            deferred_execute: opt_view(self.deferred_execute),
            drain_latch: self.drain_latch,
        }
    }
}

impl Row for SchedulerOutcome {
    fn dup(&self) -> (r: Self) {
        SchedulerOutcome {
            pass: self.pass,
            idle_ttl_fired: self.idle_ttl_fired,
            deferred_execute: opt_dup(&self.deferred_execute),
            drain_latch: self.drain_latch,
        }
    }

    fn same(&self, other: &Self) -> (r: bool) {
        self.pass == other.pass
            && self.idle_ttl_fired == other.idle_ttl_fired
            && opt_same(&self.deferred_execute, &other.deferred_execute)
            && self.drain_latch == other.drain_latch
    }
}

impl Clone for SchedulerOutcome {
    fn clone(&self) -> (r: Self)
        ensures
            r@ == self@,
    {
        self.dup()
    }
}

/// What a selection reads of a block's kind.
#[derive(Debug, PartialEq, Eq)]
pub enum SelKind {
    ToolCall { name: String, input: String },
    ToolResult { tool_name: String },
    Reasoning,
    Text,
    RedactedReasoning,
    Media,
    Opaque,
}

/// What a [`SelKind`] holds.
#[verifier::ext_equal]
pub enum SelKindModel {
    ToolCall { name: Seq<char>, input: Seq<char> },
    ToolResult { tool_name: Seq<char> },
    Reasoning,
    Text,
    RedactedReasoning,
    Media,
    Opaque,
}

impl View for SelKind {
    type V = SelKindModel;

    open spec fn view(&self) -> SelKindModel {
        match self {
            SelKind::ToolCall { name, input } => SelKindModel::ToolCall {
                name: name@,
                input: input@,
            },
            SelKind::ToolResult { tool_name } => SelKindModel::ToolResult { tool_name: tool_name@ },
            SelKind::Reasoning => SelKindModel::Reasoning,
            SelKind::Text => SelKindModel::Text,
            SelKind::RedactedReasoning => SelKindModel::RedactedReasoning,
            SelKind::Media => SelKindModel::Media,
            SelKind::Opaque => SelKindModel::Opaque,
        }
    }
}

impl Row for SelKind {
    fn dup(&self) -> (r: Self) {
        match self {
            SelKind::ToolCall { name, input } => SelKind::ToolCall {
                name: name.clone(),
                input: input.clone(),
            },
            SelKind::ToolResult { tool_name } => SelKind::ToolResult {
                tool_name: tool_name.clone(),
            },
            SelKind::Reasoning => SelKind::Reasoning,
            SelKind::Text => SelKind::Text,
            SelKind::RedactedReasoning => SelKind::RedactedReasoning,
            SelKind::Media => SelKind::Media,
            SelKind::Opaque => SelKind::Opaque,
        }
    }

    fn same(&self, other: &Self) -> (r: bool) {
        match (self, other) {
            (
                SelKind::ToolCall { name: a, input: b },
                SelKind::ToolCall { name: c, input: d },
            ) => *a == *c && *b == *d,
            (SelKind::ToolResult { tool_name: a }, SelKind::ToolResult { tool_name: b }) => *a
                == *b,
            (SelKind::Reasoning, SelKind::Reasoning) => true,
            (SelKind::Text, SelKind::Text) => true,
            (SelKind::RedactedReasoning, SelKind::RedactedReasoning) => true,
            (SelKind::Media, SelKind::Media) => true,
            (SelKind::Opaque, SelKind::Opaque) => true,
            _ => false,
        }
    }
}

impl Clone for SelKind {
    fn clone(&self) -> (r: Self)
        ensures
            r@ == self@,
    {
        self.dup()
    }
}

/// What a selection reads of a block.
#[derive(Debug, PartialEq, Eq)]
pub struct SelItem {
    pub id: String,
    pub ordinal: u64,
    pub kind: SelKind,
    pub provider_executed: bool,
    pub byte_size: usize,
    pub arc_id: Option<String>,
}

/// What a [`SelItem`] holds.
#[verifier::ext_equal]
pub struct SelItemModel {
    pub id: Seq<char>,
    pub ordinal: u64,
    pub kind: SelKindModel,
    pub provider_executed: bool,
    pub byte_size: usize,
    pub arc_id: Option<Seq<char>>,
}

impl View for SelItem {
    type V = SelItemModel;

    open spec fn view(&self) -> SelItemModel {
        SelItemModel {
            id: self.id@,
            ordinal: self.ordinal,
            kind: self.kind@,
            provider_executed: self.provider_executed,
            byte_size: self.byte_size,
            arc_id: opt_view(self.arc_id),
        }
    }
}

impl Row for SelItem {
    fn dup(&self) -> (r: Self) {
        SelItem {
            id: self.id.clone(),
            ordinal: self.ordinal,
            kind: self.kind.dup(),
            provider_executed: self.provider_executed,
            byte_size: self.byte_size,
            arc_id: opt_dup(&self.arc_id),
        }
    }

    fn same(&self, other: &Self) -> (r: bool) {
        self.id == other.id
            && self.ordinal == other.ordinal
            && self.kind.same(&other.kind)
            && self.provider_executed == other.provider_executed
            && self.byte_size == other.byte_size
            && opt_same(&self.arc_id, &other.arc_id)
    }
}

impl Clone for SelItem {
    fn clone(&self) -> (r: Self)
        ensures
            r@ == self@,
    {
        self.dup()
    }
}

/// What decides which plan a pass follows.
#[derive(Debug, Clone, Copy, Default, PartialEq, Eq, Structural)]
pub struct ClassifierInput {
    pub initialized: bool,
    pub is_legacy_baseline: bool,
    pub valid_m0m1_shape: bool,
    pub render_config_changed: bool,
    pub hard_fold_requested: bool,
    pub boundary_present: bool,
    pub reconcile_pending: bool,
    pub m1_revision_changed: bool,
    pub reductions_pending: bool,
}

impl View for ClassifierInput {
    type V = ClassifierInput;

    open spec fn view(&self) -> ClassifierInput {
        *self
    }
}

impl Row for ClassifierInput {
    fn dup(&self) -> (r: Self) {
        *self
    }

    fn same(&self, other: &Self) -> (r: bool) {
        *self == *other
    }
}

/// The plan of a pass.
#[derive(Debug, PartialEq, Eq)]
pub enum PassPlan {
    /// Render the whole history anew.
    Hard,
    /// Render the whole history anew, out of an older shape.
    MigrateHard,
    /// Render the delta anew.
    Soft,
    /// Replay what is frozen.
    Defer,
    /// The frozen units have no known shape.
    Reject(String),
}

/// What a [`PassPlan`] holds.
#[verifier::ext_equal]
pub enum PassPlanModel {
    Hard,
    MigrateHard,
    Soft,
    Defer,
    Reject(Seq<char>),
}

impl View for PassPlan {
    type V = PassPlanModel;

    open spec fn view(&self) -> PassPlanModel {
        match self {
            PassPlan::Hard => PassPlanModel::Hard,
            PassPlan::MigrateHard => PassPlanModel::MigrateHard,
            PassPlan::Soft => PassPlanModel::Soft,
            PassPlan::Defer => PassPlanModel::Defer,
            PassPlan::Reject(why) => PassPlanModel::Reject(why@),
        }
    }
}

/// What a step of the cache is asked to do.
#[derive(Debug, Clone, Copy, Default, PartialEq, Eq, Structural)]
pub enum StepAction {
    Hard,
    Soft,
    #[default]
    SoftPlus,
}

/// A step of the cache: the units to freeze and the boundary to mint.
#[derive(Debug, Default, PartialEq, Eq)]
pub struct StepInput {
    pub proposed: StepAction,
    /// The boundary where the conversation holds it, a dash where it does not.
    pub boundary_present: String,
    pub rendered_units: Vec<FrozenUnit>,
    pub new_boundary_id: Option<String>,
}

/// What a [`StepInput`] holds.
#[verifier::ext_equal]
pub struct StepInputModel {
    pub proposed: StepAction,
    pub boundary_present: Seq<char>,
    pub rendered_units: Seq<FrozenUnitModel>,
    pub new_boundary_id: Option<Seq<char>>,
}

impl View for StepInput {
    type V = StepInputModel;

    open spec fn view(&self) -> StepInputModel {
        StepInputModel {
            proposed: self.proposed,
            boundary_present: self.boundary_present@,
            rendered_units: views(self.rendered_units@),
            new_boundary_id: opt_view(self.new_boundary_id),
        }
    }
}

impl Row for StepInput {
    fn dup(&self) -> (r: Self) {
        StepInput {
            proposed: self.proposed,
            boundary_present: self.boundary_present.clone(),
            rendered_units: list_dup(&self.rendered_units),
            new_boundary_id: opt_dup(&self.new_boundary_id),
        }
    }

    fn same(&self, other: &Self) -> (r: bool) {
        self.proposed == other.proposed
            && self.boundary_present == other.boundary_present
            && list_same(&self.rendered_units, &other.rendered_units)
            && opt_same(&self.new_boundary_id, &other.new_boundary_id)
    }
}

impl Clone for StepInput {
    fn clone(&self) -> (r: Self)
        ensures
            r@ == self@,
    {
        self.dup()
    }
}

// --- what is composed -----------------------------------------------------------------

/// The whole history, rendered, and what it covers.
#[derive(Debug, Default, PartialEq, Eq)]
pub struct M0Composition {
    pub m0_bytes: String,
    pub boundary_id: String,
    pub coverage_ordinal: Option<u64>,
    pub first_covered_ordinal: Option<u64>,
    pub folded_compartment_seq: i64,
    pub rendered_memory_ids: Vec<i64>,
    pub memory_mutation_cursor: i64,
    pub max_memory_id: i64,
}

/// What a [`M0Composition`] holds.
#[verifier::ext_equal]
pub struct M0CompositionModel {
    pub m0_bytes: Seq<char>,
    pub boundary_id: Seq<char>,
    pub coverage_ordinal: Option<u64>,
    pub first_covered_ordinal: Option<u64>,
    pub folded_compartment_seq: i64,
    pub rendered_memory_ids: Seq<i64>,
    pub memory_mutation_cursor: i64,
    pub max_memory_id: i64,
}

impl View for M0Composition {
    type V = M0CompositionModel;

    open spec fn view(&self) -> M0CompositionModel {
        M0CompositionModel {
            m0_bytes: self.m0_bytes@,
            boundary_id: self.boundary_id@,
            coverage_ordinal: opt_view(self.coverage_ordinal),
            first_covered_ordinal: opt_view(self.first_covered_ordinal),
            folded_compartment_seq: self.folded_compartment_seq,
            rendered_memory_ids: views(self.rendered_memory_ids@),
            memory_mutation_cursor: self.memory_mutation_cursor,
            max_memory_id: self.max_memory_id,
        }
    }
}

impl Row for M0Composition {
    fn dup(&self) -> (r: Self) {
        M0Composition {
            m0_bytes: self.m0_bytes.clone(),
            boundary_id: self.boundary_id.clone(),
            coverage_ordinal: opt_dup(&self.coverage_ordinal),
            first_covered_ordinal: opt_dup(&self.first_covered_ordinal),
            folded_compartment_seq: self.folded_compartment_seq,
            rendered_memory_ids: list_dup(&self.rendered_memory_ids),
            memory_mutation_cursor: self.memory_mutation_cursor,
            max_memory_id: self.max_memory_id,
        }
    }

    fn same(&self, other: &Self) -> (r: bool) {
        self.m0_bytes == other.m0_bytes
            && self.boundary_id == other.boundary_id
            && opt_same(&self.coverage_ordinal, &other.coverage_ordinal)
            && opt_same(&self.first_covered_ordinal, &other.first_covered_ordinal)
            && self.folded_compartment_seq == other.folded_compartment_seq
            && list_same(&self.rendered_memory_ids, &other.rendered_memory_ids)
            && self.memory_mutation_cursor == other.memory_mutation_cursor
            && self.max_memory_id == other.max_memory_id
    }
}

impl Clone for M0Composition {
    fn clone(&self) -> (r: Self)
        ensures
            r@ == self@,
    {
        self.dup()
    }
}

/// Where a covered history ends.
#[derive(Debug, Default, PartialEq, Eq)]
pub struct CoverageEnd {
    pub boundary_id: String,
    pub ordinal: u64,
}

/// What a [`CoverageEnd`] holds.
#[verifier::ext_equal]
pub struct CoverageEndModel {
    pub boundary_id: Seq<char>,
    pub ordinal: u64,
}

impl View for CoverageEnd {
    type V = CoverageEndModel;

    open spec fn view(&self) -> CoverageEndModel {
        CoverageEndModel {
            boundary_id: self.boundary_id@,
            ordinal: self.ordinal,
        }
    }
}

impl Row for CoverageEnd {
    fn dup(&self) -> (r: Self) {
        CoverageEnd {
            boundary_id: self.boundary_id.clone(),
            ordinal: self.ordinal,
        }
    }

    fn same(&self, other: &Self) -> (r: bool) {
        self.boundary_id == other.boundary_id
            && self.ordinal == other.ordinal
    }
}

impl Clone for CoverageEnd {
    fn clone(&self) -> (r: Self)
        ensures
            r@ == self@,
    {
        self.dup()
    }
}

/// The delta, rendered, and how far it extends the coverage.
#[derive(Debug, Default, PartialEq, Eq)]
pub struct M1Composition {
    pub body: String,
    pub new_coverage: Option<CoverageEnd>,
}

/// What a [`M1Composition`] holds.
#[verifier::ext_equal]
pub struct M1CompositionModel {
    pub body: Seq<char>,
    pub new_coverage: Option<CoverageEndModel>,
}

impl View for M1Composition {
    type V = M1CompositionModel;

    open spec fn view(&self) -> M1CompositionModel {
        M1CompositionModel {
            body: self.body@,
            new_coverage: opt_view(self.new_coverage),
        }
    }
}

impl Row for M1Composition {
    fn dup(&self) -> (r: Self) {
        M1Composition {
            body: self.body.clone(),
            new_coverage: opt_dup(&self.new_coverage),
        }
    }

    fn same(&self, other: &Self) -> (r: bool) {
        self.body == other.body
            && opt_same(&self.new_coverage, &other.new_coverage)
    }
}

impl Clone for M1Composition {
    fn clone(&self) -> (r: Self)
        ensures
            r@ == self@,
    {
        self.dup()
    }
}

/// The shorter form of a block that carries a frozen reduction.
#[derive(Debug, PartialEq, Eq)]
pub struct ReducedBlock {
    pub id: String,
    pub wire: CkWireBlock,
}

/// What a [`ReducedBlock`] holds.
#[verifier::ext_equal]
pub struct ReducedBlockModel {
    pub id: Seq<char>,
    pub wire: CkWireBlockModel,
}

impl View for ReducedBlock {
    type V = ReducedBlockModel;

    open spec fn view(&self) -> ReducedBlockModel {
        ReducedBlockModel {
            id: self.id@,
            wire: self.wire@,
        }
    }
}

impl Row for ReducedBlock {
    fn dup(&self) -> (r: Self) {
        ReducedBlock {
            id: self.id.clone(),
            wire: self.wire.dup(),
        }
    }

    fn same(&self, other: &Self) -> (r: bool) {
        self.id == other.id
            && self.wire.same(&other.wire)
    }
}

impl Clone for ReducedBlock {
    fn clone(&self) -> (r: Self)
        ensures
            r@ == self@,
    {
        self.dup()
    }
}

// --- the answer -----------------------------------------------------------------------

/// Whether a pass was served.
#[derive(Debug, Clone, Copy, PartialEq, Eq, Structural)]
pub enum TransformStatus {
    Served,
    NeedFullSync,
}

impl View for TransformStatus {
    type V = TransformStatus;

    open spec fn view(&self) -> TransformStatus {
        *self
    }
}

/// What served a pass.
#[derive(Debug, Clone, Copy, PartialEq, Eq, Structural)]
pub enum ServedFrom {
    Transform,
    DaemonLkg,
}

impl View for ServedFrom {
    type V = ServedFrom;

    open spec fn view(&self) -> ServedFrom {
        *self
    }
}

/// What a pass tells of the historian.
#[derive(Debug, Default, PartialEq, Eq)]
pub struct HistorianDiagnostics {
    pub fired: bool,
    pub reason: Option<String>,
    pub no_fire: Option<String>,
    pub state: String,
    pub last_failure: Option<String>,
}

/// What a [`HistorianDiagnostics`] holds.
#[verifier::ext_equal]
pub struct HistorianDiagnosticsModel {
    pub fired: bool,
    pub reason: Option<Seq<char>>,
    pub no_fire: Option<Seq<char>>,
    pub state: Seq<char>,
    pub last_failure: Option<Seq<char>>,
}

impl View for HistorianDiagnostics {
    type V = HistorianDiagnosticsModel;

    open spec fn view(&self) -> HistorianDiagnosticsModel {
        HistorianDiagnosticsModel {
            fired: self.fired,
            reason: opt_view(self.reason),
            no_fire: opt_view(self.no_fire),
            state: self.state@,
            last_failure: opt_view(self.last_failure),
        }
    }
}

impl Row for HistorianDiagnostics {
    fn dup(&self) -> (r: Self) {
        HistorianDiagnostics {
            fired: self.fired,
            reason: opt_dup(&self.reason),
            no_fire: opt_dup(&self.no_fire),
            state: self.state.clone(),
            last_failure: opt_dup(&self.last_failure),
        }
    }

    fn same(&self, other: &Self) -> (r: bool) {
        self.fired == other.fired
            && opt_same(&self.reason, &other.reason)
            && opt_same(&self.no_fire, &other.no_fire)
            && self.state == other.state
            && opt_same(&self.last_failure, &other.last_failure)
    }
}

impl Clone for HistorianDiagnostics {
    fn clone(&self) -> (r: Self)
        ensures
            r@ == self@,
    {
        self.dup()
    }
}

/// The answer to a request. A message array is absent exactly where the whole conversation
/// has to be sent again.
#[derive(Debug, PartialEq, Eq)]
pub struct TransformResponse {
    pub status: TransformStatus,
    pub served_from: ServedFrom,
    pub full_array_fingerprint: Option<String>,
    pub action: String,
    pub boundary_id: String,
    pub reconcile_pending: bool,
    pub version: u64,
    pub row_version: u64,
    pub committed: bool,
    pub coverage_ordinal: Option<u64>,
    pub historian: Option<HistorianDiagnostics>,
    pub ck_messages: Option<Vec<CkWireMessage>>,
}

/// What a [`TransformResponse`] holds.
#[verifier::ext_equal]
pub struct TransformResponseModel {
    pub status: TransformStatus,
    pub served_from: ServedFrom,
    pub full_array_fingerprint: Option<Seq<char>>,
    pub action: Seq<char>,
    pub boundary_id: Seq<char>,
    pub reconcile_pending: bool,
    pub version: u64,
    pub row_version: u64,
    pub committed: bool,
    pub coverage_ordinal: Option<u64>,
    pub historian: Option<HistorianDiagnosticsModel>,
    pub ck_messages: Option<Seq<CkWireMessageModel>>,
}

/// The messages of an optional array.
pub open spec fn opt_messages(o: Option<Vec<CkWireMessage>>) -> Option<Seq<CkWireMessageModel>> {
    match o {
        Some(list) => Some(views(list@)),
        None => None,
    }
}

impl View for TransformResponse {
    type V = TransformResponseModel;

    open spec fn view(&self) -> TransformResponseModel {
        TransformResponseModel {
            status: self.status,
            served_from: self.served_from,
            full_array_fingerprint: opt_view(self.full_array_fingerprint),
            action: self.action@,
            boundary_id: self.boundary_id@,
            reconcile_pending: self.reconcile_pending,
            version: self.version,
            row_version: self.row_version,
            committed: self.committed,
            coverage_ordinal: self.coverage_ordinal,
            historian: opt_view(self.historian),
            ck_messages: opt_messages(self.ck_messages),
        }
    }
}

/// An answer that carries no state of the session.
pub open spec fn stateless(
    status: TransformStatus,
    action: Seq<char>,
    fingerprint: Option<Seq<char>>,
    messages: Option<Seq<CkWireMessageModel>>,
) -> TransformResponseModel {
    TransformResponseModel {
        status,
        served_from: ServedFrom::Transform,
        full_array_fingerprint: fingerprint,
        action,
        boundary_id: Seq::empty(),
        reconcile_pending: false,
        version: 0,
        row_version: 0,
        committed: false,
        coverage_ordinal: None,
        historian: None,
        ck_messages: messages,
    }
}

impl TransformResponse {
    /// The messages of the answer; none where the whole conversation has to be sent again.
    pub fn messages(&self) -> (r: &[CkWireMessage])
        ensures
            views(r@) == (match self@.ck_messages {
                Some(list) => list,
                None => Seq::empty(),
            }),
    {
        broadcast use crate::rows::group_views;

        match &self.ck_messages {
            Some(list) => list.as_slice(),
            None => &[],
        }
    }

    /// Asks for the whole conversation.
    pub fn need_full_sync(full_array_fingerprint: Option<String>) -> (r: Self)
        ensures
            r@ == stateless(
                TransformStatus::NeedFullSync,
                "NEED_FULL_SYNC"@,
                opt_view(full_array_fingerprint),
                None,
            ),
    {
        TransformResponse {
            status: TransformStatus::NeedFullSync,
            served_from: ServedFrom::Transform,
            full_array_fingerprint,
            action: "NEED_FULL_SYNC".to_owned(),
            boundary_id: String::new(),
            reconcile_pending: false,
            version: 0,
            row_version: 0,
            committed: false,
            coverage_ordinal: None,
            historian: None,
            ck_messages: None,
        }
    }

    /// Hands messages back as they are.
    pub fn passthrough(ck_messages: Vec<CkWireMessage>, full_array_fingerprint: Option<String>) -> (r:
        Self)
        ensures
            r@ == stateless(
                TransformStatus::Served,
                "PASSTHROUGH"@,
                opt_view(full_array_fingerprint),
                Some(views(ck_messages@)),
            ),
    {
        TransformResponse {
            status: TransformStatus::Served,
            served_from: ServedFrom::Transform,
            full_array_fingerprint,
            action: "PASSTHROUGH".to_owned(),
            boundary_id: String::new(),
            reconcile_pending: false,
            version: 0,
            row_version: 0,
            committed: false,
            coverage_ordinal: None,
            historian: None,
            ck_messages: Some(ck_messages),
        }
    }
}

} // verus!
