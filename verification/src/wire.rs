//! The conversation wire types: messages, their blocks and the tool outputs in them.
//!
//! Free-form JSON that no rule here looks into is carried as compact JSON text.

use vstd::prelude::*;

use crate::rows::{group_views, list_dup, list_same, opt_dup, opt_same, opt_view, views, Row};

verus! {

/// Provider-specific fields as one JSON object text; `None` when there are none.
#[derive(Debug, Default, PartialEq, Eq)]
pub struct ProviderExtras {
    pub json: Option<String>,
}

/// What a [`ProviderExtras`] holds.
#[verifier::ext_equal]
pub struct ProviderExtrasModel {
    pub json: Option<Seq<char>>,
}

impl View for ProviderExtras {
    type V = ProviderExtrasModel;

    open spec fn view(&self) -> ProviderExtrasModel {
        ProviderExtrasModel {
            json: opt_view(self.json),
        }
    }
}

impl Row for ProviderExtras {
    fn dup(&self) -> (r: Self) {
        ProviderExtras {
            json: opt_dup(&self.json),
        }
    }

    fn same(&self, other: &Self) -> (r: bool) {
        opt_same(&self.json, &other.json)
    }
}

impl Clone for ProviderExtras {
    fn clone(&self) -> (r: Self)
        ensures
            r@ == self@,
    {
        self.dup()
    }
}

impl ProviderExtras {
    /// No provider-specific fields.
    pub fn new() -> (r: Self)
        ensures
            r@ == (ProviderExtrasModel { json: None }),
    {
        ProviderExtras { json: None }
    }
}

/// Bookkeeping of the harness that sent a message.
#[derive(Debug, Default, PartialEq, Eq)]
pub struct HarnessMeta {
    pub harness_id: Option<String>,
    pub ordinal: Option<u64>,
    /// Generated by this library, not by the conversation.
    pub synthetic: bool,
}

/// What a [`HarnessMeta`] holds.
#[verifier::ext_equal]
pub struct HarnessMetaModel {
    pub harness_id: Option<Seq<char>>,
    pub ordinal: Option<u64>,
    pub synthetic: bool,
}

impl View for HarnessMeta {
    type V = HarnessMetaModel;

    open spec fn view(&self) -> HarnessMetaModel {
        HarnessMetaModel {
            harness_id: opt_view(self.harness_id),
            ordinal: opt_view(self.ordinal),
            synthetic: self.synthetic,
        }
    }
}

impl Row for HarnessMeta {
    fn dup(&self) -> (r: Self) {
        HarnessMeta {
            harness_id: opt_dup(&self.harness_id),
            ordinal: opt_dup(&self.ordinal),
            synthetic: self.synthetic,
        }
    }

    fn same(&self, other: &Self) -> (r: bool) {
        opt_same(&self.harness_id, &other.harness_id)
            && opt_same(&self.ordinal, &other.ordinal)
            && self.synthetic == other.synthetic
    }
}

impl Clone for HarnessMeta {
    fn clone(&self) -> (r: Self)
        ensures
            r@ == self@,
    {
        self.dup()
    }
}

/// Which provider and model produced a message.
#[derive(Debug, Default, PartialEq, Eq)]
pub struct MessageOrigin {
    pub provider: String,
    pub model: String,
    pub api: String,
}

/// What a [`MessageOrigin`] holds.
#[verifier::ext_equal]
pub struct MessageOriginModel {
    pub provider: Seq<char>,
    pub model: Seq<char>,
    pub api: Seq<char>,
}

impl View for MessageOrigin {
    type V = MessageOriginModel;

    open spec fn view(&self) -> MessageOriginModel {
        MessageOriginModel {
            provider: self.provider@,
            model: self.model@,
            api: self.api@,
        }
    }
}

impl Row for MessageOrigin {
    fn dup(&self) -> (r: Self) {
        MessageOrigin {
            provider: self.provider.clone(),
            model: self.model.clone(),
            api: self.api.clone(),
        }
    }

    fn same(&self, other: &Self) -> (r: bool) {
        self.provider == other.provider
            && self.model == other.model
            && self.api == other.api
    }
}

impl Clone for MessageOrigin {
    fn clone(&self) -> (r: Self)
        ensures
            r@ == self@,
    {
        self.dup()
    }
}

/// The kind of a media block.
#[derive(Debug, Clone, Copy, PartialEq, Eq, Structural)]
pub enum MediaKind {
    Image,
    Audio,
    Video,
    File,
    Document,
}

/// A media block; `source` is JSON text.
#[derive(Debug, PartialEq, Eq)]
pub struct MediaBlock {
    pub kind: MediaKind,
    pub media_type: String,
    pub filename: Option<String>,
    pub source: String,
}

/// What a [`MediaBlock`] holds.
#[verifier::ext_equal]
pub struct MediaBlockModel {
    pub kind: MediaKind,
    pub media_type: Seq<char>,
    pub filename: Option<Seq<char>>,
    pub source: Seq<char>,
}

impl View for MediaBlock {
    type V = MediaBlockModel;

    open spec fn view(&self) -> MediaBlockModel {
        MediaBlockModel {
            kind: self.kind,
            media_type: self.media_type@,
            filename: opt_view(self.filename),
            source: self.source@,
        }
    }
}

impl Row for MediaBlock {
    fn dup(&self) -> (r: Self) {
        MediaBlock {
            kind: self.kind,
            media_type: self.media_type.clone(),
            filename: opt_dup(&self.filename),
            source: self.source.clone(),
        }
    }

    fn same(&self, other: &Self) -> (r: bool) {
        self.kind == other.kind
            && self.media_type == other.media_type
            && opt_same(&self.filename, &other.filename)
            && self.source == other.source
    }
}

impl Clone for MediaBlock {
    fn clone(&self) -> (r: Self)
        ensures
            r@ == self@,
    {
        self.dup()
    }
}

/// A block that is carried through unread; `source`, `raw` and `arc` are JSON text.
#[derive(Debug, Default, PartialEq, Eq)]
pub struct OpaqueBlock {
    pub source: String,
    pub kind: String,
    pub raw: String,
    pub arc: Option<String>,
}

/// What a [`OpaqueBlock`] holds.
#[verifier::ext_equal]
pub struct OpaqueBlockModel {
    pub source: Seq<char>,
    pub kind: Seq<char>,
    pub raw: Seq<char>,
    pub arc: Option<Seq<char>>,
}

impl View for OpaqueBlock {
    type V = OpaqueBlockModel;

    open spec fn view(&self) -> OpaqueBlockModel {
        OpaqueBlockModel {
            source: self.source@,
            kind: self.kind@,
            raw: self.raw@,
            arc: opt_view(self.arc),
        }
    }
}

impl Row for OpaqueBlock {
    fn dup(&self) -> (r: Self) {
        OpaqueBlock {
            source: self.source.clone(),
            kind: self.kind.clone(),
            raw: self.raw.clone(),
            arc: opt_dup(&self.arc),
        }
    }

    fn same(&self, other: &Self) -> (r: bool) {
        self.source == other.source
            && self.kind == other.kind
            && self.raw == other.raw
            && opt_same(&self.arc, &other.arc)
    }
}

impl Clone for OpaqueBlock {
    fn clone(&self) -> (r: Self)
        ensures
            r@ == self@,
    {
        self.dup()
    }
}

/// The kind of one block of a tool result.
#[derive(Debug, PartialEq, Eq)]
pub enum ResultBlockKind {
    Text { text: String },
    Media { media: MediaBlock },
    Opaque { opaque: OpaqueBlock },
}

/// What a [`ResultBlockKind`] holds.
#[verifier::ext_equal]
pub enum ResultBlockKindModel {
    Text { text: Seq<char> },
    Media { media: MediaBlockModel },
    Opaque { opaque: OpaqueBlockModel },
}

impl View for ResultBlockKind {
    type V = ResultBlockKindModel;

    open spec fn view(&self) -> ResultBlockKindModel {
        match self {
            ResultBlockKind::Text { text } => ResultBlockKindModel::Text { text: text@ },
            ResultBlockKind::Media { media } => ResultBlockKindModel::Media { media: media@ },
            ResultBlockKind::Opaque { opaque } => ResultBlockKindModel::Opaque { opaque: opaque@ },
        }
    }
}

impl Row for ResultBlockKind {
    fn dup(&self) -> (r: Self) {
        match self {
            ResultBlockKind::Text { text } => ResultBlockKind::Text { text: text.clone() },
            ResultBlockKind::Media { media } => ResultBlockKind::Media { media: media.dup() },
            ResultBlockKind::Opaque { opaque } => ResultBlockKind::Opaque { opaque: opaque.dup() },
        }
    }

    fn same(&self, other: &Self) -> (r: bool) {
        match (self, other) {
            (ResultBlockKind::Text { text: text_a }, ResultBlockKind::Text { text: text_b }) => *text_a == *text_b,
            (ResultBlockKind::Media { media: media_a }, ResultBlockKind::Media { media: media_b }) => media_a.same(media_b),
            (ResultBlockKind::Opaque { opaque: opaque_a }, ResultBlockKind::Opaque { opaque: opaque_b }) => opaque_a.same(opaque_b),
            _ => false,
        }
    }
}

impl Clone for ResultBlockKind {
    fn clone(&self) -> (r: Self)
        ensures
            r@ == self@,
    {
        self.dup()
    }
}

/// One block of a tool result.
#[derive(Debug, PartialEq, Eq)]
pub struct ResultBlock {
    pub kind: ResultBlockKind,
    pub provider_extras: ProviderExtras,
}

/// What a [`ResultBlock`] holds.
#[verifier::ext_equal]
pub struct ResultBlockModel {
    pub kind: ResultBlockKindModel,
    pub provider_extras: ProviderExtrasModel,
}

impl View for ResultBlock {
    type V = ResultBlockModel;

    open spec fn view(&self) -> ResultBlockModel {
        ResultBlockModel {
            kind: self.kind@,
            provider_extras: self.provider_extras@,
        }
    }
}

impl Row for ResultBlock {
    fn dup(&self) -> (r: Self) {
        ResultBlock {
            kind: self.kind.dup(),
            provider_extras: self.provider_extras.dup(),
        }
    }

    fn same(&self, other: &Self) -> (r: bool) {
        self.kind.same(&other.kind)
            && self.provider_extras.same(&other.provider_extras)
    }
}

impl Clone for ResultBlock {
    fn clone(&self) -> (r: Self)
        ensures
            r@ == self@,
    {
        self.dup()
    }
}

/// What a tool returned; JSON values are JSON text.
#[derive(Debug, PartialEq, Eq)]
pub enum CkOutputKind {
    Text { text: String },
    Json { value: String },
    ErrorText { text: String },
    ErrorJson { value: String },
    ExecutionDenied { reason: Option<String> },
    Content { blocks: Vec<ResultBlock> },
}

/// What a [`CkOutputKind`] holds.
#[verifier::ext_equal]
pub enum CkOutputKindModel {
    Text { text: Seq<char> },
    Json { value: Seq<char> },
    ErrorText { text: Seq<char> },
    ErrorJson { value: Seq<char> },
    ExecutionDenied { reason: Option<Seq<char>> },
    Content { blocks: Seq<ResultBlockModel> },
}

impl View for CkOutputKind {
    type V = CkOutputKindModel;

    open spec fn view(&self) -> CkOutputKindModel {
        match self {
            CkOutputKind::Text { text } => CkOutputKindModel::Text { text: text@ },
            CkOutputKind::Json { value } => CkOutputKindModel::Json { value: value@ },
            CkOutputKind::ErrorText { text } => CkOutputKindModel::ErrorText { text: text@ },
            CkOutputKind::ErrorJson { value } => CkOutputKindModel::ErrorJson { value: value@ },
            CkOutputKind::ExecutionDenied { reason } => CkOutputKindModel::ExecutionDenied { reason: opt_view(*reason) },
            CkOutputKind::Content { blocks } => CkOutputKindModel::Content { blocks: views(blocks@) },
        }
    }
}

impl Row for CkOutputKind {
    fn dup(&self) -> (r: Self) {
        match self {
            CkOutputKind::Text { text } => CkOutputKind::Text { text: text.clone() },
            CkOutputKind::Json { value } => CkOutputKind::Json { value: value.clone() },
            CkOutputKind::ErrorText { text } => CkOutputKind::ErrorText { text: text.clone() },
            CkOutputKind::ErrorJson { value } => CkOutputKind::ErrorJson { value: value.clone() },
            CkOutputKind::ExecutionDenied { reason } => CkOutputKind::ExecutionDenied { reason: opt_dup(reason) },
            CkOutputKind::Content { blocks } => CkOutputKind::Content { blocks: list_dup(blocks) },
        }
    }

    fn same(&self, other: &Self) -> (r: bool) {
        match (self, other) {
            (CkOutputKind::Text { text: text_a }, CkOutputKind::Text { text: text_b }) => *text_a == *text_b,
            (CkOutputKind::Json { value: value_a }, CkOutputKind::Json { value: value_b }) => *value_a == *value_b,
            (CkOutputKind::ErrorText { text: text_a }, CkOutputKind::ErrorText { text: text_b }) => *text_a == *text_b,
            (CkOutputKind::ErrorJson { value: value_a }, CkOutputKind::ErrorJson { value: value_b }) => *value_a == *value_b,
            (CkOutputKind::ExecutionDenied { reason: reason_a }, CkOutputKind::ExecutionDenied { reason: reason_b }) => opt_same(reason_a, reason_b),
            (CkOutputKind::Content { blocks: blocks_a }, CkOutputKind::Content { blocks: blocks_b }) => list_same(blocks_a, blocks_b),
            _ => false,
        }
    }
}

impl Clone for CkOutputKind {
    fn clone(&self) -> (r: Self)
        ensures
            r@ == self@,
    {
        self.dup()
    }
}

impl CkOutputKindModel {
    /// The wire tag of the variant.
    pub open spec fn tag(self) -> Seq<char> {
        match self {
            CkOutputKindModel::Text { .. } => "text"@,
            CkOutputKindModel::Json { .. } => "json"@,
            CkOutputKindModel::ErrorText { .. } => "error_text"@,
            CkOutputKindModel::ErrorJson { .. } => "error_json"@,
            CkOutputKindModel::ExecutionDenied { .. } => "execution_denied"@,
            CkOutputKindModel::Content { .. } => "content"@,
        }
    }
}

impl CkOutputKind {
    /// The wire tag of the variant.
    pub fn tag(&self) -> (r: &'static str)
        ensures
            r@ == self@.tag(),
    {
        match self {
            CkOutputKind::Text { .. } => "text",
            CkOutputKind::Json { .. } => "json",
            CkOutputKind::ErrorText { .. } => "error_text",
            CkOutputKind::ErrorJson { .. } => "error_json",
            CkOutputKind::ExecutionDenied { .. } => "execution_denied",
            CkOutputKind::Content { .. } => "content",
        }
    }
}

/// A tool output with its provider fields.
#[derive(Debug, PartialEq, Eq)]
pub struct CkToolOutput {
    pub kind: CkOutputKind,
    pub provider_extras: ProviderExtras,
}

/// What a [`CkToolOutput`] holds.
#[verifier::ext_equal]
pub struct CkToolOutputModel {
    pub kind: CkOutputKindModel,
    pub provider_extras: ProviderExtrasModel,
}

impl View for CkToolOutput {
    type V = CkToolOutputModel;

    open spec fn view(&self) -> CkToolOutputModel {
        CkToolOutputModel {
            kind: self.kind@,
            provider_extras: self.provider_extras@,
        }
    }
}

impl Row for CkToolOutput {
    fn dup(&self) -> (r: Self) {
        CkToolOutput {
            kind: self.kind.dup(),
            provider_extras: self.provider_extras.dup(),
        }
    }

    fn same(&self, other: &Self) -> (r: bool) {
        self.kind.same(&other.kind)
            && self.provider_extras.same(&other.provider_extras)
    }
}

impl Clone for CkToolOutput {
    fn clone(&self) -> (r: Self)
        ensures
            r@ == self@,
    {
        self.dup()
    }
}

/// The kind of one message block; a tool call's `input` is JSON text.
#[derive(Debug, PartialEq, Eq)]
pub enum CkKind {
    Text { text: String },
    Reasoning { text: String, signature: Option<String> },
    RedactedReasoning { data: String },
    ToolCall { id: String, name: String, input: String, provider_executed: bool },
    ToolResult { id: String, tool_name: String, output: CkToolOutput, provider_executed: bool },
    Media(MediaBlock),
    Opaque(OpaqueBlock),
}

/// What a [`CkKind`] holds.
#[verifier::ext_equal]
pub enum CkKindModel {
    Text { text: Seq<char> },
    Reasoning { text: Seq<char>, signature: Option<Seq<char>> },
    RedactedReasoning { data: Seq<char> },
    ToolCall { id: Seq<char>, name: Seq<char>, input: Seq<char>, provider_executed: bool },
    ToolResult { id: Seq<char>, tool_name: Seq<char>, output: CkToolOutputModel, provider_executed: bool },
    Media(MediaBlockModel),
    Opaque(OpaqueBlockModel),
}

impl View for CkKind {
    type V = CkKindModel;

    open spec fn view(&self) -> CkKindModel {
        match self {
            CkKind::Text { text } => CkKindModel::Text { text: text@ },
            CkKind::Reasoning { text, signature } => CkKindModel::Reasoning { text: text@, signature: opt_view(*signature) },
            CkKind::RedactedReasoning { data } => CkKindModel::RedactedReasoning { data: data@ },
            CkKind::ToolCall { id, name, input, provider_executed } => CkKindModel::ToolCall { id: id@, name: name@, input: input@, provider_executed: *provider_executed },
            CkKind::ToolResult { id, tool_name, output, provider_executed } => CkKindModel::ToolResult { id: id@, tool_name: tool_name@, output: output@, provider_executed: *provider_executed },
            CkKind::Media(b) => CkKindModel::Media(b@),
            CkKind::Opaque(b) => CkKindModel::Opaque(b@),
        }
    }
}

impl Row for CkKind {
    fn dup(&self) -> (r: Self) {
        match self {
            CkKind::Text { text } => CkKind::Text { text: text.clone() },
            CkKind::Reasoning { text, signature } => CkKind::Reasoning { text: text.clone(), signature: opt_dup(signature) },
            CkKind::RedactedReasoning { data } => CkKind::RedactedReasoning { data: data.clone() },
            CkKind::ToolCall { id, name, input, provider_executed } => CkKind::ToolCall { id: id.clone(), name: name.clone(), input: input.clone(), provider_executed: *provider_executed },
            CkKind::ToolResult { id, tool_name, output, provider_executed } => CkKind::ToolResult { id: id.clone(), tool_name: tool_name.clone(), output: output.dup(), provider_executed: *provider_executed },
            CkKind::Media(b) => CkKind::Media(b.dup()),
            CkKind::Opaque(b) => CkKind::Opaque(b.dup()),
        }
    }

    fn same(&self, other: &Self) -> (r: bool) {
        match (self, other) {
            (CkKind::Text { text: text_a }, CkKind::Text { text: text_b }) => *text_a == *text_b,
            (CkKind::Reasoning { text: text_a, signature: signature_a }, CkKind::Reasoning { text: text_b, signature: signature_b }) => *text_a == *text_b && opt_same(signature_a, signature_b),
            (CkKind::RedactedReasoning { data: data_a }, CkKind::RedactedReasoning { data: data_b }) => *data_a == *data_b,
            (CkKind::ToolCall { id: id_a, name: name_a, input: input_a, provider_executed: provider_executed_a }, CkKind::ToolCall { id: id_b, name: name_b, input: input_b, provider_executed: provider_executed_b }) => *id_a == *id_b && *name_a == *name_b && *input_a == *input_b && *provider_executed_a == *provider_executed_b,
            (CkKind::ToolResult { id: id_a, tool_name: tool_name_a, output: output_a, provider_executed: provider_executed_a }, CkKind::ToolResult { id: id_b, tool_name: tool_name_b, output: output_b, provider_executed: provider_executed_b }) => *id_a == *id_b && *tool_name_a == *tool_name_b && output_a.same(output_b) && *provider_executed_a == *provider_executed_b,
            (CkKind::Media(a), CkKind::Media(b)) => a.same(b),
            (CkKind::Opaque(a), CkKind::Opaque(b)) => a.same(b),
            _ => false,
        }
    }
}

impl Clone for CkKind {
    fn clone(&self) -> (r: Self)
        ensures
            r@ == self@,
    {
        self.dup()
    }
}

impl CkKindModel {
    /// The wire tag of the variant.
    pub open spec fn tag(self) -> Seq<char> {
        match self {
            CkKindModel::Text { .. } => "text"@,
            CkKindModel::Reasoning { .. } => "reasoning"@,
            CkKindModel::RedactedReasoning { .. } => "redacted_reasoning"@,
            CkKindModel::ToolCall { .. } => "tool_call"@,
            CkKindModel::ToolResult { .. } => "tool_result"@,
            CkKindModel::Media(..) => "media"@,
            CkKindModel::Opaque(..) => "opaque"@,
        }
    }
}

impl CkKind {
    /// The wire tag of the variant.
    pub fn tag(&self) -> (r: &'static str)
        ensures
            r@ == self@.tag(),
    {
        match self {
            CkKind::Text { .. } => "text",
            CkKind::Reasoning { .. } => "reasoning",
            CkKind::RedactedReasoning { .. } => "redacted_reasoning",
            CkKind::ToolCall { .. } => "tool_call",
            CkKind::ToolResult { .. } => "tool_result",
            CkKind::Media(..) => "media",
            CkKind::Opaque(..) => "opaque",
        }
    }
}

/// One block of a message.
#[derive(Debug, PartialEq, Eq)]
pub struct CkWireBlock {
    pub kind: CkKind,
    pub provider_extras: ProviderExtras,
    /// The received JSON text, replayed byte for byte until the block is modified.
    pub original: Option<String>,
}

/// What a [`CkWireBlock`] holds.
#[verifier::ext_equal]
pub struct CkWireBlockModel {
    pub kind: CkKindModel,
    pub provider_extras: ProviderExtrasModel,
    pub original: Option<Seq<char>>,
}

impl View for CkWireBlock {
    type V = CkWireBlockModel;

    open spec fn view(&self) -> CkWireBlockModel {
        CkWireBlockModel {
            kind: self.kind@,
            provider_extras: self.provider_extras@,
            original: opt_view(self.original),
        }
    }
}

impl Row for CkWireBlock {
    fn dup(&self) -> (r: Self) {
        CkWireBlock {
            kind: self.kind.dup(),
            provider_extras: self.provider_extras.dup(),
            original: opt_dup(&self.original),
        }
    }

    fn same(&self, other: &Self) -> (r: bool) {
        self.kind.same(&other.kind)
            && self.provider_extras.same(&other.provider_extras)
            && opt_same(&self.original, &other.original)
    }
}

impl Clone for CkWireBlock {
    fn clone(&self) -> (r: Self)
        ensures
            r@ == self@,
    {
        self.dup()
    }
}

/// One conversation message.
#[derive(Debug, PartialEq, Eq)]
pub struct CkWireMessage {
    pub role: String,
    pub content: Vec<CkWireBlock>,
    pub origin: Option<MessageOrigin>,
    pub provider_extras: ProviderExtras,
    pub meta: HarnessMeta,
    /// The received JSON text, replayed byte for byte until the message is modified.
    pub original: Option<String>,
}

/// What a [`CkWireMessage`] holds.
#[verifier::ext_equal]
pub struct CkWireMessageModel {
    pub role: Seq<char>,
    pub content: Seq<CkWireBlockModel>,
    pub origin: Option<MessageOriginModel>,
    pub provider_extras: ProviderExtrasModel,
    pub meta: HarnessMetaModel,
    pub original: Option<Seq<char>>,
}

impl View for CkWireMessage {
    type V = CkWireMessageModel;

    open spec fn view(&self) -> CkWireMessageModel {
        CkWireMessageModel {
            role: self.role@,
            content: views(self.content@),
            origin: opt_view(self.origin),
            provider_extras: self.provider_extras@,
            meta: self.meta@,
            original: opt_view(self.original),
        }
    }
}

impl Row for CkWireMessage {
    fn dup(&self) -> (r: Self) {
        CkWireMessage {
            role: self.role.clone(),
            content: list_dup(&self.content),
            origin: opt_dup(&self.origin),
            provider_extras: self.provider_extras.dup(),
            meta: self.meta.dup(),
            original: opt_dup(&self.original),
        }
    }

    fn same(&self, other: &Self) -> (r: bool) {
        self.role == other.role
            && list_same(&self.content, &other.content)
            && opt_same(&self.origin, &other.origin)
            && self.provider_extras.same(&other.provider_extras)
            && self.meta.same(&other.meta)
            && opt_same(&self.original, &other.original)
    }
}

impl Clone for CkWireMessage {
    fn clone(&self) -> (r: Self)
        ensures
            r@ == self@,
    {
        self.dup()
    }
}


impl CkToolOutput {
    /// An output without provider fields.
    pub fn bare(kind: CkOutputKind) -> (r: Self)
        ensures
            r@ == (CkToolOutputModel {
                kind: kind@,
                provider_extras: ProviderExtrasModel { json: None },
            }),
    {
        CkToolOutput { kind, provider_extras: ProviderExtras::new() }
    }
}

impl CkWireBlockModel {
    /// The block as serialised from its fields alone.
    pub open spec fn typed(self) -> CkWireBlockModel {
        CkWireBlockModel { original: None, ..self }
    }
}

/// A block with no provider fields and no retained text.
pub open spec fn bare_block(kind: CkKindModel) -> CkWireBlockModel {
    CkWireBlockModel { kind, provider_extras: ProviderExtrasModel { json: None }, original: None }
}

impl CkWireBlock {
    /// A block without provider fields.
    pub fn bare(kind: CkKind) -> (r: Self)
        ensures
            r@ == bare_block(kind@),
    {
        CkWireBlock { kind, provider_extras: ProviderExtras::new(), original: None }
    }

    /// A block with provider fields.
    pub fn with_provider_extras(kind: CkKind, provider_extras: ProviderExtras) -> (r: Self)
        ensures
            r@ == (CkWireBlockModel {
                kind: kind@,
                provider_extras: provider_extras@,
                original: None,
            }),
    {
        CkWireBlock { kind, provider_extras, original: None }
    }

    /// Drops the retained text, so that an edit of the block reaches the wire.
    pub fn mark_modified(&mut self)
        ensures
            final(self)@ == old(self)@.typed(),
    {
        self.original = None;
    }
}

/// The blocks, each without its retained text.
pub open spec fn typed_blocks(blocks: Seq<CkWireBlockModel>) -> Seq<CkWireBlockModel> {
    blocks.map_values(|b: CkWireBlockModel| b.typed())
}

impl CkWireMessageModel {
    /// The message without its retained text; the blocks keep theirs.
    pub open spec fn modified(self) -> CkWireMessageModel {
        CkWireMessageModel { original: None, ..self }
    }

    /// The message and all its blocks without retained text.
    pub open spec fn fully_typed(self) -> CkWireMessageModel {
        CkWireMessageModel { original: None, content: typed_blocks(self.content), ..self }
    }
}

/// The user message with one text block that this library generates.
pub open spec fn synthetic_user(text: Seq<char>) -> CkWireMessageModel {
    CkWireMessageModel {
        role: "user"@,
        content: seq![bare_block(CkKindModel::Text { text })],
        origin: None,
        provider_extras: ProviderExtrasModel { json: None },
        meta: HarnessMetaModel { harness_id: None, ordinal: None, synthetic: true },
        original: None,
    }
}

impl CkWireMessage {
    /// Assembles a message.
    pub fn from_parts(
        role: &str,
        content: Vec<CkWireBlock>,
        origin: Option<MessageOrigin>,
        provider_extras: ProviderExtras,
        meta: HarnessMeta,
    ) -> (r: Self)
        ensures
            r@ == (CkWireMessageModel {
                role: role@,
                content: views(content@),
                origin: opt_view(origin),
                provider_extras: provider_extras@,
                meta: meta@,
                original: None,
            }),
    {
        CkWireMessage { role: role.to_owned(), content, origin, provider_extras, meta, original: None }
    }

    /// A generated user message with one text block.
    pub fn synthetic_user_text(text: String) -> (r: Self)
        ensures
            r@ == synthetic_user(text@),
    {
        broadcast use group_views;

        let mut content: Vec<CkWireBlock> = Vec::new();
        content.push(CkWireBlock::bare(CkKind::Text { text }));
        assert(views(content@) =~= seq![bare_block(CkKindModel::Text { text: text@ })]);
        CkWireMessage::from_parts(
            "user",
            content,
            None,
            ProviderExtras::new(),
            HarnessMeta { harness_id: None, ordinal: None, synthetic: true },
        )
    }

    /// Drops the retained text, so that an edit of the message reaches the wire.
    pub fn mark_modified(&mut self)
        ensures
            final(self)@ == old(self)@.modified(),
    {
        self.original = None;
    }

    /// Drops the retained text of the message and of every block.
    pub fn mark_fully_typed(&mut self)
        ensures
            final(self)@ == old(self)@.fully_typed(),
    {
        self.original = None;
        let ghost before = views(self.content@);
        let mut i: usize = 0;
        while i < self.content.len()
            invariant
                i <= self.content.len(),
                before == old(self)@.content,
                views(self.content@).len() == before.len(),
                forall|j: int|
                    0 <= j < before.len() ==> #[trigger] views(self.content@)[j] == (if j < i {
                        before[j].typed()
                    } else {
                        before[j]
                    }),
                self@.modified() == (CkWireMessageModel {
                    content: views(self.content@),
                    ..old(self)@
                }).modified(),
                self.original is None,
            decreases self.content.len() - i,
        {
            let mut block = self.content[i].dup();
            assert(block@ == views(self.content@)[i as int]);
            block.mark_modified();
            let ghost prior = self.content@;
            self.content[i] = block;
            assert(views(self.content@) =~= views(prior).update(i as int, block@));
            i += 1;
        }
        assert(views(self.content@) =~= typed_blocks(before));
    }
}

} // verus!
