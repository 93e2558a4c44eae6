//! The rows of the store's tables and the results of its operations.

use vstd::prelude::*;

use crate::meta::{CoreState, CoreStateModel, ModuleMeta, ModuleMetaModel};
use crate::rows::{list_dup, list_same, opt_dup, opt_same, opt_view, views, Row};

verus! {

/// The cache row of a session: its state and the version that guards it.
#[derive(Debug, PartialEq, Eq)]
pub struct CacheRow {
    pub row_version: u64,
    pub core: CoreState,
    pub meta: ModuleMeta,
}

/// What a [`CacheRow`] holds.
#[verifier::ext_equal]
pub struct CacheRowModel {
    pub row_version: u64,
    pub core: CoreStateModel,
    pub meta: ModuleMetaModel,
}

impl View for CacheRow {
    type V = CacheRowModel;

    open spec fn view(&self) -> CacheRowModel {
        CacheRowModel {
            row_version: self.row_version,
            core: self.core@,
            meta: self.meta@,
        }
    }
}

impl Row for CacheRow {
    fn dup(&self) -> (r: Self) {
        CacheRow {
            row_version: self.row_version,
            core: self.core.dup(),
            meta: self.meta.dup(),
        }
    }

    fn same(&self, other: &Self) -> (r: bool) {
        self.row_version == other.row_version
            && self.core.same(&other.core)
            && self.meta.same(&other.meta)
    }
}

impl Clone for CacheRow {
    fn clone(&self) -> (r: Self)
        ensures
            r@ == self@,
    {
        self.dup()
    }
}

/// The loaded state of a session.
#[derive(Debug, PartialEq, Eq)]
pub struct LoadedState {
    pub core: CoreState,
    pub meta: ModuleMeta,
    /// The version to commit against; `None` when the session has no row yet.
    pub row_version: Option<u64>,
}

/// What a [`LoadedState`] holds.
#[verifier::ext_equal]
pub struct LoadedStateModel {
    pub core: CoreStateModel,
    pub meta: ModuleMetaModel,
    pub row_version: Option<u64>,
}

impl View for LoadedState {
    type V = LoadedStateModel;

    open spec fn view(&self) -> LoadedStateModel {
        LoadedStateModel {
            core: self.core@,
            meta: self.meta@,
            row_version: opt_view(self.row_version),
        }
    }
}

impl Row for LoadedState {
    fn dup(&self) -> (r: Self) {
        LoadedState {
            core: self.core.dup(),
            meta: self.meta.dup(),
            row_version: opt_dup(&self.row_version),
        }
    }

    fn same(&self, other: &Self) -> (r: bool) {
        self.core.same(&other.core)
            && self.meta.same(&other.meta)
            && opt_same(&self.row_version, &other.row_version)
    }
}

impl Clone for LoadedState {
    fn clone(&self) -> (r: Self)
        ensures
            r@ == self@,
    {
        self.dup()
    }
}

/// One compartment of a session's summarised history; `sequence` is its chronological place.
#[derive(Debug, Default, PartialEq, Eq)]
pub struct StoredCompartment {
    pub sequence: i64,
    pub start_message: i64,
    pub end_message: i64,
    pub start_message_id: String,
    pub end_message_id: String,
    pub start_date: Option<String>,
    pub end_date: Option<String>,
    pub title: String,
    /// The first tier text, or the flat body of a legacy row.
    pub content: String,
    pub p1: Option<String>,
    pub p2: Option<String>,
    pub p3: Option<String>,
    pub p4: Option<String>,
    pub importance: i32,
    pub episode_type: Option<String>,
    pub legacy: i32,
    pub created_at: i64,
}

/// What a [`StoredCompartment`] holds.
#[verifier::ext_equal]
pub struct StoredCompartmentModel {
    pub sequence: i64,
    pub start_message: i64,
    pub end_message: i64,
    pub start_message_id: Seq<char>,
    pub end_message_id: Seq<char>,
    pub start_date: Option<Seq<char>>,
    pub end_date: Option<Seq<char>>,
    pub title: Seq<char>,
    pub content: Seq<char>,
    pub p1: Option<Seq<char>>,
    pub p2: Option<Seq<char>>,
    pub p3: Option<Seq<char>>,
    pub p4: Option<Seq<char>>,
    pub importance: i32,
    pub episode_type: Option<Seq<char>>,
    pub legacy: i32,
    pub created_at: i64,
}

impl View for StoredCompartment {
    type V = StoredCompartmentModel;

    open spec fn view(&self) -> StoredCompartmentModel {
        StoredCompartmentModel {
            sequence: self.sequence,
            start_message: self.start_message,
            end_message: self.end_message,
            start_message_id: self.start_message_id@,
            end_message_id: self.end_message_id@,
            start_date: opt_view(self.start_date),
            end_date: opt_view(self.end_date),
            title: self.title@,
            content: self.content@,
            p1: opt_view(self.p1),
            p2: opt_view(self.p2),
            p3: opt_view(self.p3),
            p4: opt_view(self.p4),
            importance: self.importance,
            episode_type: opt_view(self.episode_type),
            legacy: self.legacy,
            created_at: self.created_at,
        }
    }
}

impl Row for StoredCompartment {
    fn dup(&self) -> (r: Self) {
        StoredCompartment {
            sequence: self.sequence,
            start_message: self.start_message,
            end_message: self.end_message,
            start_message_id: self.start_message_id.clone(),
            end_message_id: self.end_message_id.clone(),
            start_date: opt_dup(&self.start_date),
            end_date: opt_dup(&self.end_date),
            title: self.title.clone(),
            content: self.content.clone(),
            p1: opt_dup(&self.p1),
            p2: opt_dup(&self.p2),
            p3: opt_dup(&self.p3),
            p4: opt_dup(&self.p4),
            importance: self.importance,
            episode_type: opt_dup(&self.episode_type),
            legacy: self.legacy,
            created_at: self.created_at,
        }
    }

    fn same(&self, other: &Self) -> (r: bool) {
        self.sequence == other.sequence
            && self.start_message == other.start_message
            && self.end_message == other.end_message
            && self.start_message_id == other.start_message_id
            && self.end_message_id == other.end_message_id
            && opt_same(&self.start_date, &other.start_date)
            && opt_same(&self.end_date, &other.end_date)
            && self.title == other.title
            && self.content == other.content
            && opt_same(&self.p1, &other.p1)
            && opt_same(&self.p2, &other.p2)
            && opt_same(&self.p3, &other.p3)
            && opt_same(&self.p4, &other.p4)
            && self.importance == other.importance
            && opt_same(&self.episode_type, &other.episode_type)
            && self.legacy == other.legacy
            && self.created_at == other.created_at
    }
}

impl Clone for StoredCompartment {
    fn clone(&self) -> (r: Self)
        ensures
            r@ == self@,
    {
        self.dup()
    }
}

/// Breadcrumbs of a session's transform passes.
#[derive(Debug, Default, PartialEq, Eq)]
pub struct PassTrace {
    pub last_received_at_ms: i64,
    pub last_completed_at_ms: i64,
    pub last_reject_error: Option<String>,
    pub last_reject_at_ms: Option<i64>,
    pub reject_count: u64,
    pub receive_count: u64,
}

/// What a [`PassTrace`] holds.
#[verifier::ext_equal]
pub struct PassTraceModel {
    pub last_received_at_ms: i64,
    pub last_completed_at_ms: i64,
    pub last_reject_error: Option<Seq<char>>,
    pub last_reject_at_ms: Option<i64>,
    pub reject_count: u64,
    pub receive_count: u64,
}

impl View for PassTrace {
    type V = PassTraceModel;

    open spec fn view(&self) -> PassTraceModel {
        PassTraceModel {
            last_received_at_ms: self.last_received_at_ms,
            last_completed_at_ms: self.last_completed_at_ms,
            last_reject_error: opt_view(self.last_reject_error),
            last_reject_at_ms: opt_view(self.last_reject_at_ms),
            reject_count: self.reject_count,
            receive_count: self.receive_count,
        }
    }
}

impl Row for PassTrace {
    fn dup(&self) -> (r: Self) {
        PassTrace {
            last_received_at_ms: self.last_received_at_ms,
            last_completed_at_ms: self.last_completed_at_ms,
            last_reject_error: opt_dup(&self.last_reject_error),
            last_reject_at_ms: opt_dup(&self.last_reject_at_ms),
            reject_count: self.reject_count,
            receive_count: self.receive_count,
        }
    }

    fn same(&self, other: &Self) -> (r: bool) {
        self.last_received_at_ms == other.last_received_at_ms
            && self.last_completed_at_ms == other.last_completed_at_ms
            && opt_same(&self.last_reject_error, &other.last_reject_error)
            && opt_same(&self.last_reject_at_ms, &other.last_reject_at_ms)
            && self.reject_count == other.reject_count
            && self.receive_count == other.receive_count
    }
}

impl Clone for PassTrace {
    fn clone(&self) -> (r: Self)
        ensures
            r@ == self@,
    {
        self.dup()
    }
}

/// A queued request to drop one block.
#[derive(Debug, Default, PartialEq, Eq)]
pub struct PendingAgentDrop {
    pub id: i64,
    pub target_id: String,
    pub queued_at_ms: i64,
}

/// What a [`PendingAgentDrop`] holds.
#[verifier::ext_equal]
pub struct PendingAgentDropModel {
    pub id: i64,
    pub target_id: Seq<char>,
    pub queued_at_ms: i64,
}

impl View for PendingAgentDrop {
    type V = PendingAgentDropModel;

    open spec fn view(&self) -> PendingAgentDropModel {
        PendingAgentDropModel {
            id: self.id,
            target_id: self.target_id@,
            queued_at_ms: self.queued_at_ms,
        }
    }
}

impl Row for PendingAgentDrop {
    fn dup(&self) -> (r: Self) {
        PendingAgentDrop {
            id: self.id,
            target_id: self.target_id.clone(),
            queued_at_ms: self.queued_at_ms,
        }
    }

    fn same(&self, other: &Self) -> (r: bool) {
        self.id == other.id
            && self.target_id == other.target_id
            && self.queued_at_ms == other.queued_at_ms
    }
}

impl Clone for PendingAgentDrop {
    fn clone(&self) -> (r: Self)
        ensures
            r@ == self@,
    {
        self.dup()
    }
}

/// What appending drops did.
#[derive(Debug, Clone, Copy, Default, PartialEq, Eq, Structural)]
pub struct AppendOutcome {
    pub queued: u64,
    pub duplicate: bool,
}

impl View for AppendOutcome {
    type V = AppendOutcome;

    open spec fn view(&self) -> AppendOutcome {
        *self
    }
}

impl Row for AppendOutcome {
    fn dup(&self) -> (r: Self) {
        *self
    }

    fn same(&self, other: &Self) -> (r: bool) {
        *self == *other
    }
}

/// A command that was already carried out.
#[derive(Debug, Default, PartialEq, Eq)]
pub struct LedgerRow {
    pub command_id: String,
    pub queued_at_ms: i64,
}

/// What a [`LedgerRow`] holds.
#[verifier::ext_equal]
pub struct LedgerRowModel {
    pub command_id: Seq<char>,
    pub queued_at_ms: i64,
}

impl View for LedgerRow {
    type V = LedgerRowModel;

    open spec fn view(&self) -> LedgerRowModel {
        LedgerRowModel {
            command_id: self.command_id@,
            queued_at_ms: self.queued_at_ms,
        }
    }
}

impl Row for LedgerRow {
    fn dup(&self) -> (r: Self) {
        LedgerRow {
            command_id: self.command_id.clone(),
            queued_at_ms: self.queued_at_ms,
        }
    }

    fn same(&self, other: &Self) -> (r: bool) {
        self.command_id == other.command_id
            && self.queued_at_ms == other.queued_at_ms
    }
}

impl Clone for LedgerRow {
    fn clone(&self) -> (r: Self)
        ensures
            r@ == self@,
    {
        self.dup()
    }
}

/// A block that may need a tag.
#[derive(Debug, Default, PartialEq, Eq)]
pub struct TagMintInput {
    pub block_id: String,
    pub kind: String,
    pub token_count: i64,
    pub source_bytes: Vec<u8>,
}

/// What a [`TagMintInput`] holds.
#[verifier::ext_equal]
pub struct TagMintInputModel {
    pub block_id: Seq<char>,
    pub kind: Seq<char>,
    pub token_count: i64,
    pub source_bytes: Seq<u8>,
}

impl View for TagMintInput {
    type V = TagMintInputModel;

    open spec fn view(&self) -> TagMintInputModel {
        TagMintInputModel {
            block_id: self.block_id@,
            kind: self.kind@,
            token_count: self.token_count,
            source_bytes: views(self.source_bytes@),
        }
    }
}

impl Row for TagMintInput {
    fn dup(&self) -> (r: Self) {
        TagMintInput {
            block_id: self.block_id.clone(),
            kind: self.kind.clone(),
            token_count: self.token_count,
            source_bytes: list_dup(&self.source_bytes),
        }
    }

    fn same(&self, other: &Self) -> (r: bool) {
        self.block_id == other.block_id
            && self.kind == other.kind
            && self.token_count == other.token_count
            && list_same(&self.source_bytes, &other.source_bytes)
    }
}

impl Clone for TagMintInput {
    fn clone(&self) -> (r: Self)
        ensures
            r@ == self@,
    {
        self.dup()
    }
}

/// The tag of one block.
#[derive(Debug, Default, PartialEq, Eq)]
pub struct McTagRow {
    pub tag_number: i64,
    pub block_id: String,
    pub kind: String,
    pub token_count: i64,
    pub created_at_ms: i64,
    /// The bytes that the tag was minted from.
    pub source_bytes: Vec<u8>,
}

/// What a [`McTagRow`] holds.
#[verifier::ext_equal]
pub struct McTagRowModel {
    pub tag_number: i64,
    pub block_id: Seq<char>,
    pub kind: Seq<char>,
    pub token_count: i64,
    pub created_at_ms: i64,
    pub source_bytes: Seq<u8>,
}

impl View for McTagRow {
    type V = McTagRowModel;

    open spec fn view(&self) -> McTagRowModel {
        McTagRowModel {
            tag_number: self.tag_number,
            block_id: self.block_id@,
            kind: self.kind@,
            token_count: self.token_count,
            created_at_ms: self.created_at_ms,
            source_bytes: views(self.source_bytes@),
        }
    }
}

impl Row for McTagRow {
    fn dup(&self) -> (r: Self) {
        McTagRow {
            tag_number: self.tag_number,
            block_id: self.block_id.clone(),
            kind: self.kind.clone(),
            token_count: self.token_count,
            created_at_ms: self.created_at_ms,
            source_bytes: list_dup(&self.source_bytes),
        }
    }

    fn same(&self, other: &Self) -> (r: bool) {
        self.tag_number == other.tag_number
            && self.block_id == other.block_id
            && self.kind == other.kind
            && self.token_count == other.token_count
            && self.created_at_ms == other.created_at_ms
            && list_same(&self.source_bytes, &other.source_bytes)
    }
}

impl Clone for McTagRow {
    fn clone(&self) -> (r: Self)
        ensures
            r@ == self@,
    {
        self.dup()
    }
}

/// A reminder appended to one block.
#[derive(Debug, Default, PartialEq, Eq)]
pub struct Channel1AppendRow {
    pub block_id: String,
    pub reminder_text: String,
    pub fired_at_ms: i64,
}

/// What a [`Channel1AppendRow`] holds.
#[verifier::ext_equal]
pub struct Channel1AppendRowModel {
    pub block_id: Seq<char>,
    pub reminder_text: Seq<char>,
    pub fired_at_ms: i64,
}

impl View for Channel1AppendRow {
    type V = Channel1AppendRowModel;

    open spec fn view(&self) -> Channel1AppendRowModel {
        Channel1AppendRowModel {
            block_id: self.block_id@,
            reminder_text: self.reminder_text@,
            fired_at_ms: self.fired_at_ms,
        }
    }
}

impl Row for Channel1AppendRow {
    fn dup(&self) -> (r: Self) {
        Channel1AppendRow {
            block_id: self.block_id.clone(),
            reminder_text: self.reminder_text.clone(),
            fired_at_ms: self.fired_at_ms,
        }
    }

    fn same(&self, other: &Self) -> (r: bool) {
        self.block_id == other.block_id
            && self.reminder_text == other.reminder_text
            && self.fired_at_ms == other.fired_at_ms
    }
}

impl Clone for Channel1AppendRow {
    fn clone(&self) -> (r: Self)
        ensures
            r@ == self@,
    {
        self.dup()
    }
}

/// A search hint decided for one block; an empty text records a decision for none.
#[derive(Debug, Default, PartialEq, Eq)]
pub struct UserHintRow {
    pub block_id: String,
    pub hint_text: String,
    pub created_at: i64,
}

/// What a [`UserHintRow`] holds.
#[verifier::ext_equal]
pub struct UserHintRowModel {
    pub block_id: Seq<char>,
    pub hint_text: Seq<char>,
    pub created_at: i64,
}

impl View for UserHintRow {
    type V = UserHintRowModel;

    open spec fn view(&self) -> UserHintRowModel {
        UserHintRowModel {
            block_id: self.block_id@,
            hint_text: self.hint_text@,
            created_at: self.created_at,
        }
    }
}

impl Row for UserHintRow {
    fn dup(&self) -> (r: Self) {
        UserHintRow {
            block_id: self.block_id.clone(),
            hint_text: self.hint_text.clone(),
            created_at: self.created_at,
        }
    }

    fn same(&self, other: &Self) -> (r: bool) {
        self.block_id == other.block_id
            && self.hint_text == other.hint_text
            && self.created_at == other.created_at
    }
}

impl Clone for UserHintRow {
    fn clone(&self) -> (r: Self)
        ensures
            r@ == self@,
    {
        self.dup()
    }
}

/// The import that a session was seeded from.
#[derive(Debug, Default, PartialEq, Eq)]
pub struct ImportRow {
    pub import_id: String,
    pub imported_count: i64,
    pub completed_at_ms: i64,
}

/// What a [`ImportRow`] holds.
#[verifier::ext_equal]
pub struct ImportRowModel {
    pub import_id: Seq<char>,
    pub imported_count: i64,
    pub completed_at_ms: i64,
}

impl View for ImportRow {
    type V = ImportRowModel;

    open spec fn view(&self) -> ImportRowModel {
        ImportRowModel {
            import_id: self.import_id@,
            imported_count: self.imported_count,
            completed_at_ms: self.completed_at_ms,
        }
    }
}

impl Row for ImportRow {
    fn dup(&self) -> (r: Self) {
        ImportRow {
            import_id: self.import_id.clone(),
            imported_count: self.imported_count,
            completed_at_ms: self.completed_at_ms,
        }
    }

    fn same(&self, other: &Self) -> (r: bool) {
        self.import_id == other.import_id
            && self.imported_count == other.imported_count
            && self.completed_at_ms == other.completed_at_ms
    }
}

impl Clone for ImportRow {
    fn clone(&self) -> (r: Self)
        ensures
            r@ == self@,
    {
        self.dup()
    }
}

/// What an import did.
#[derive(Debug, Clone, Copy, Default, PartialEq, Eq, Structural)]
pub struct StateImportResult {
    pub imported: usize,
    pub duplicate: bool,
}

impl View for StateImportResult {
    type V = StateImportResult;

    open spec fn view(&self) -> StateImportResult {
        *self
    }
}

impl Row for StateImportResult {
    fn dup(&self) -> (r: Self) {
        *self
    }

    fn same(&self, other: &Self) -> (r: bool) {
        *self == *other
    }
}

/// A compressed transcript of one compartment.
#[derive(Debug, Default, PartialEq, Eq)]
pub struct TranscriptRow {
    pub compartment_seq: i64,
    pub start_ordinal: i64,
    pub end_ordinal: i64,
    pub transcript_deflate: Vec<u8>,
    pub created_at_ms: i64,
}

/// What a [`TranscriptRow`] holds.
#[verifier::ext_equal]
pub struct TranscriptRowModel {
    pub compartment_seq: i64,
    pub start_ordinal: i64,
    pub end_ordinal: i64,
    pub transcript_deflate: Seq<u8>,
    pub created_at_ms: i64,
}

impl View for TranscriptRow {
    type V = TranscriptRowModel;

    open spec fn view(&self) -> TranscriptRowModel {
        TranscriptRowModel {
            compartment_seq: self.compartment_seq,
            start_ordinal: self.start_ordinal,
            end_ordinal: self.end_ordinal,
            transcript_deflate: views(self.transcript_deflate@),
            created_at_ms: self.created_at_ms,
        }
    }
}

impl Row for TranscriptRow {
    fn dup(&self) -> (r: Self) {
        TranscriptRow {
            compartment_seq: self.compartment_seq,
            start_ordinal: self.start_ordinal,
            end_ordinal: self.end_ordinal,
            transcript_deflate: list_dup(&self.transcript_deflate),
            created_at_ms: self.created_at_ms,
        }
    }

    fn same(&self, other: &Self) -> (r: bool) {
        self.compartment_seq == other.compartment_seq
            && self.start_ordinal == other.start_ordinal
            && self.end_ordinal == other.end_ordinal
            && list_same(&self.transcript_deflate, &other.transcript_deflate)
            && self.created_at_ms == other.created_at_ms
    }
}

impl Clone for TranscriptRow {
    fn clone(&self) -> (r: Self)
        ensures
            r@ == self@,
    {
        self.dup()
    }
}

/// A transcript as read back; `None` when its bytes do not decompress.
#[derive(Debug, Default, PartialEq, Eq)]
pub struct StoredChunkTranscript {
    pub compartment_seq: i64,
    pub start_ordinal: i64,
    pub end_ordinal: i64,
    pub transcript: Option<String>,
    pub created_at_ms: i64,
}

/// What a [`StoredChunkTranscript`] holds.
#[verifier::ext_equal]
pub struct StoredChunkTranscriptModel {
    pub compartment_seq: i64,
    pub start_ordinal: i64,
    pub end_ordinal: i64,
    pub transcript: Option<Seq<char>>,
    pub created_at_ms: i64,
}

impl View for StoredChunkTranscript {
    type V = StoredChunkTranscriptModel;

    open spec fn view(&self) -> StoredChunkTranscriptModel {
        StoredChunkTranscriptModel {
            compartment_seq: self.compartment_seq,
            start_ordinal: self.start_ordinal,
            end_ordinal: self.end_ordinal,
            transcript: opt_view(self.transcript),
            created_at_ms: self.created_at_ms,
        }
    }
}

impl Row for StoredChunkTranscript {
    fn dup(&self) -> (r: Self) {
        StoredChunkTranscript {
            compartment_seq: self.compartment_seq,
            start_ordinal: self.start_ordinal,
            end_ordinal: self.end_ordinal,
            transcript: opt_dup(&self.transcript),
            created_at_ms: self.created_at_ms,
        }
    }

    fn same(&self, other: &Self) -> (r: bool) {
        self.compartment_seq == other.compartment_seq
            && self.start_ordinal == other.start_ordinal
            && self.end_ordinal == other.end_ordinal
            && opt_same(&self.transcript, &other.transcript)
            && self.created_at_ms == other.created_at_ms
    }
}

impl Clone for StoredChunkTranscript {
    fn clone(&self) -> (r: Self)
        ensures
            r@ == self@,
    {
        self.dup()
    }
}

/// One entry of the memory mutation log.
#[derive(Debug, Default, PartialEq, Eq)]
pub struct StoredMemoryMutation {
    pub id: i64,
    pub mutation_type: String,
    pub target_memory_id: i64,
    pub superseded_by_id: Option<i64>,
    pub category: Option<String>,
    pub new_content: Option<String>,
    pub queued_at: i64,
}

/// What a [`StoredMemoryMutation`] holds.
#[verifier::ext_equal]
pub struct StoredMemoryMutationModel {
    pub id: i64,
    pub mutation_type: Seq<char>,
    pub target_memory_id: i64,
    pub superseded_by_id: Option<i64>,
    pub category: Option<Seq<char>>,
    pub new_content: Option<Seq<char>>,
    pub queued_at: i64,
}

impl View for StoredMemoryMutation {
    type V = StoredMemoryMutationModel;

    open spec fn view(&self) -> StoredMemoryMutationModel {
        StoredMemoryMutationModel {
            id: self.id,
            mutation_type: self.mutation_type@,
            target_memory_id: self.target_memory_id,
            superseded_by_id: opt_view(self.superseded_by_id),
            category: opt_view(self.category),
            new_content: opt_view(self.new_content),
            queued_at: self.queued_at,
        }
    }
}

impl Row for StoredMemoryMutation {
    fn dup(&self) -> (r: Self) {
        StoredMemoryMutation {
            id: self.id,
            mutation_type: self.mutation_type.clone(),
            target_memory_id: self.target_memory_id,
            superseded_by_id: opt_dup(&self.superseded_by_id),
            category: opt_dup(&self.category),
            new_content: opt_dup(&self.new_content),
            queued_at: self.queued_at,
        }
    }

    fn same(&self, other: &Self) -> (r: bool) {
        self.id == other.id
            && self.mutation_type == other.mutation_type
            && self.target_memory_id == other.target_memory_id
            && opt_same(&self.superseded_by_id, &other.superseded_by_id)
            && opt_same(&self.category, &other.category)
            && opt_same(&self.new_content, &other.new_content)
            && self.queued_at == other.queued_at
    }
}

impl Clone for StoredMemoryMutation {
    fn clone(&self) -> (r: Self)
        ensures
            r@ == self@,
    {
        self.dup()
    }
}

/// A mutation log entry with the project it belongs to.
#[derive(Debug, Default, PartialEq, Eq)]
pub struct ShadowMemoryMutationRow {
    pub project_path: String,
    pub mutation: StoredMemoryMutation,
}

/// What a [`ShadowMemoryMutationRow`] holds.
#[verifier::ext_equal]
pub struct ShadowMemoryMutationRowModel {
    pub project_path: Seq<char>,
    pub mutation: StoredMemoryMutationModel,
}

impl View for ShadowMemoryMutationRow {
    type V = ShadowMemoryMutationRowModel;

    open spec fn view(&self) -> ShadowMemoryMutationRowModel {
        ShadowMemoryMutationRowModel {
            project_path: self.project_path@,
            mutation: self.mutation@,
        }
    }
}

impl Row for ShadowMemoryMutationRow {
    fn dup(&self) -> (r: Self) {
        ShadowMemoryMutationRow {
            project_path: self.project_path.clone(),
            mutation: self.mutation.dup(),
        }
    }

    fn same(&self, other: &Self) -> (r: bool) {
        self.project_path == other.project_path
            && self.mutation.same(&other.mutation)
    }
}

impl Clone for ShadowMemoryMutationRow {
    fn clone(&self) -> (r: Self)
        ensures
            r@ == self@,
    {
        self.dup()
    }
}

/// A complete project memory.
#[derive(Debug, Default, PartialEq, Eq)]
pub struct StoredMemoryFull {
    pub id: i64,
    pub project_path: String,
    pub category: String,
    pub content: String,
    pub normalized_hash: String,
    pub importance: Option<i32>,
    pub scope: String,
    pub shareable: i32,
    pub source_session_id: Option<String>,
    pub source_type: Option<String>,
    pub seen_count: i64,
    pub retrieval_count: i64,
    pub first_seen_at: i64,
    pub created_at: i64,
    pub updated_at: i64,
    pub last_seen_at: i64,
    pub last_retrieved_at: Option<i64>,
    pub status: String,
    pub expires_at: Option<i64>,
    pub verification_status: String,
    pub verified_at: Option<i64>,
    pub classified_at: Option<i64>,
    pub superseded_by_memory_id: Option<i64>,
    pub merged_from: Option<String>,
    pub metadata_json: Option<String>,
}

/// What a [`StoredMemoryFull`] holds.
#[verifier::ext_equal]
pub struct StoredMemoryFullModel {
    pub id: i64,
    pub project_path: Seq<char>,
    pub category: Seq<char>,
    pub content: Seq<char>,
    pub normalized_hash: Seq<char>,
    pub importance: Option<i32>,
    pub scope: Seq<char>,
    pub shareable: i32,
    pub source_session_id: Option<Seq<char>>,
    pub source_type: Option<Seq<char>>,
    pub seen_count: i64,
    pub retrieval_count: i64,
    pub first_seen_at: i64,
    pub created_at: i64,
    pub updated_at: i64,
    pub last_seen_at: i64,
    pub last_retrieved_at: Option<i64>,
    pub status: Seq<char>,
    pub expires_at: Option<i64>,
    pub verification_status: Seq<char>,
    pub verified_at: Option<i64>,
    pub classified_at: Option<i64>,
    pub superseded_by_memory_id: Option<i64>,
    pub merged_from: Option<Seq<char>>,
    pub metadata_json: Option<Seq<char>>,
}

impl View for StoredMemoryFull {
    type V = StoredMemoryFullModel;

    open spec fn view(&self) -> StoredMemoryFullModel {
        StoredMemoryFullModel {
            id: self.id,
            project_path: self.project_path@,
            category: self.category@,
            content: self.content@,
            normalized_hash: self.normalized_hash@,
            importance: opt_view(self.importance),
            scope: self.scope@,
            shareable: self.shareable,
            source_session_id: opt_view(self.source_session_id),
            source_type: opt_view(self.source_type),
            seen_count: self.seen_count,
            retrieval_count: self.retrieval_count,
            first_seen_at: self.first_seen_at,
            created_at: self.created_at,
            updated_at: self.updated_at,
            last_seen_at: self.last_seen_at,
            last_retrieved_at: opt_view(self.last_retrieved_at),
            status: self.status@,
            expires_at: opt_view(self.expires_at),
            verification_status: self.verification_status@,
            verified_at: opt_view(self.verified_at),
            classified_at: opt_view(self.classified_at),
            superseded_by_memory_id: opt_view(self.superseded_by_memory_id),
            merged_from: opt_view(self.merged_from),
            metadata_json: opt_view(self.metadata_json),
        }
    }
}

impl Row for StoredMemoryFull {
    fn dup(&self) -> (r: Self) {
        StoredMemoryFull {
            id: self.id,
            project_path: self.project_path.clone(),
            category: self.category.clone(),
            content: self.content.clone(),
            normalized_hash: self.normalized_hash.clone(),
            importance: opt_dup(&self.importance),
            scope: self.scope.clone(),
            shareable: self.shareable,
            source_session_id: opt_dup(&self.source_session_id),
            source_type: opt_dup(&self.source_type),
            seen_count: self.seen_count,
            retrieval_count: self.retrieval_count,
            first_seen_at: self.first_seen_at,
            created_at: self.created_at,
            updated_at: self.updated_at,
            last_seen_at: self.last_seen_at,
            last_retrieved_at: opt_dup(&self.last_retrieved_at),
            status: self.status.clone(),
            expires_at: opt_dup(&self.expires_at),
            verification_status: self.verification_status.clone(),
            verified_at: opt_dup(&self.verified_at),
            classified_at: opt_dup(&self.classified_at),
            superseded_by_memory_id: opt_dup(&self.superseded_by_memory_id),
            merged_from: opt_dup(&self.merged_from),
            metadata_json: opt_dup(&self.metadata_json),
        }
    }

    fn same(&self, other: &Self) -> (r: bool) {
        self.id == other.id
            && self.project_path == other.project_path
            && self.category == other.category
            && self.content == other.content
            && self.normalized_hash == other.normalized_hash
            && opt_same(&self.importance, &other.importance)
            && self.scope == other.scope
            && self.shareable == other.shareable
            && opt_same(&self.source_session_id, &other.source_session_id)
            && opt_same(&self.source_type, &other.source_type)
            && self.seen_count == other.seen_count
            && self.retrieval_count == other.retrieval_count
            && self.first_seen_at == other.first_seen_at
            && self.created_at == other.created_at
            && self.updated_at == other.updated_at
            && self.last_seen_at == other.last_seen_at
            && opt_same(&self.last_retrieved_at, &other.last_retrieved_at)
            && self.status == other.status
            && opt_same(&self.expires_at, &other.expires_at)
            && self.verification_status == other.verification_status
            && opt_same(&self.verified_at, &other.verified_at)
            && opt_same(&self.classified_at, &other.classified_at)
            && opt_same(&self.superseded_by_memory_id, &other.superseded_by_memory_id)
            && opt_same(&self.merged_from, &other.merged_from)
            && opt_same(&self.metadata_json, &other.metadata_json)
    }
}

impl Clone for StoredMemoryFull {
    fn clone(&self) -> (r: Self)
        ensures
            r@ == self@,
    {
        self.dup()
    }
}

/// A project memory mirrored from a shadow sender, under the sender's id.
#[derive(Debug, Default, PartialEq, Eq)]
pub struct ShadowMemoryRow {
    pub id: i64,
    pub project_path: String,
    pub category: String,
    pub content: String,
    pub normalized_hash: String,
    pub importance: Option<i32>,
    pub scope: String,
    pub shareable: i32,
    pub source_session_id: Option<String>,
    pub source_type: Option<String>,
    pub seen_count: i64,
    pub retrieval_count: i64,
    pub first_seen_at: i64,
    pub created_at: i64,
    pub updated_at: i64,
    pub last_seen_at: i64,
    pub last_retrieved_at: Option<i64>,
    pub status: String,
    pub expires_at: Option<i64>,
    pub verification_status: String,
    pub verified_at: Option<i64>,
    pub classified_at: Option<i64>,
    pub superseded_by_memory_id: Option<i64>,
    pub merged_from: Option<String>,
    pub metadata_json: Option<String>,
}

/// What a [`ShadowMemoryRow`] holds.
#[verifier::ext_equal]
pub struct ShadowMemoryRowModel {
    pub id: i64,
    pub project_path: Seq<char>,
    pub category: Seq<char>,
    pub content: Seq<char>,
    pub normalized_hash: Seq<char>,
    pub importance: Option<i32>,
    pub scope: Seq<char>,
    pub shareable: i32,
    pub source_session_id: Option<Seq<char>>,
    pub source_type: Option<Seq<char>>,
    pub seen_count: i64,
    pub retrieval_count: i64,
    pub first_seen_at: i64,
    pub created_at: i64,
    pub updated_at: i64,
    pub last_seen_at: i64,
    pub last_retrieved_at: Option<i64>,
    pub status: Seq<char>,
    pub expires_at: Option<i64>,
    pub verification_status: Seq<char>,
    pub verified_at: Option<i64>,
    pub classified_at: Option<i64>,
    pub superseded_by_memory_id: Option<i64>,
    pub merged_from: Option<Seq<char>>,
    pub metadata_json: Option<Seq<char>>,
}

impl View for ShadowMemoryRow {
    type V = ShadowMemoryRowModel;

    open spec fn view(&self) -> ShadowMemoryRowModel {
        ShadowMemoryRowModel {
            id: self.id,
            project_path: self.project_path@,
            category: self.category@,
            content: self.content@,
            normalized_hash: self.normalized_hash@,
            importance: opt_view(self.importance),
            scope: self.scope@,
            shareable: self.shareable,
            source_session_id: opt_view(self.source_session_id),
            source_type: opt_view(self.source_type),
            seen_count: self.seen_count,
            retrieval_count: self.retrieval_count,
            first_seen_at: self.first_seen_at,
            created_at: self.created_at,
            updated_at: self.updated_at,
            last_seen_at: self.last_seen_at,
            last_retrieved_at: opt_view(self.last_retrieved_at),
            status: self.status@,
            expires_at: opt_view(self.expires_at),
            verification_status: self.verification_status@,
            verified_at: opt_view(self.verified_at),
            classified_at: opt_view(self.classified_at),
            superseded_by_memory_id: opt_view(self.superseded_by_memory_id),
            merged_from: opt_view(self.merged_from),
            metadata_json: opt_view(self.metadata_json),
        }
    }
}

impl Row for ShadowMemoryRow {
    fn dup(&self) -> (r: Self) {
        ShadowMemoryRow {
            id: self.id,
            project_path: self.project_path.clone(),
            category: self.category.clone(),
            content: self.content.clone(),
            normalized_hash: self.normalized_hash.clone(),
            importance: opt_dup(&self.importance),
            scope: self.scope.clone(),
            shareable: self.shareable,
            source_session_id: opt_dup(&self.source_session_id),
            source_type: opt_dup(&self.source_type),
            seen_count: self.seen_count,
            retrieval_count: self.retrieval_count,
            first_seen_at: self.first_seen_at,
            created_at: self.created_at,
            updated_at: self.updated_at,
            last_seen_at: self.last_seen_at,
            last_retrieved_at: opt_dup(&self.last_retrieved_at),
            status: self.status.clone(),
            expires_at: opt_dup(&self.expires_at),
            verification_status: self.verification_status.clone(),
            verified_at: opt_dup(&self.verified_at),
            classified_at: opt_dup(&self.classified_at),
            superseded_by_memory_id: opt_dup(&self.superseded_by_memory_id),
            merged_from: opt_dup(&self.merged_from),
            metadata_json: opt_dup(&self.metadata_json),
        }
    }

    fn same(&self, other: &Self) -> (r: bool) {
        self.id == other.id
            && self.project_path == other.project_path
            && self.category == other.category
            && self.content == other.content
            && self.normalized_hash == other.normalized_hash
            && opt_same(&self.importance, &other.importance)
            && self.scope == other.scope
            && self.shareable == other.shareable
            && opt_same(&self.source_session_id, &other.source_session_id)
            && opt_same(&self.source_type, &other.source_type)
            && self.seen_count == other.seen_count
            && self.retrieval_count == other.retrieval_count
            && self.first_seen_at == other.first_seen_at
            && self.created_at == other.created_at
            && self.updated_at == other.updated_at
            && self.last_seen_at == other.last_seen_at
            && opt_same(&self.last_retrieved_at, &other.last_retrieved_at)
            && self.status == other.status
            && opt_same(&self.expires_at, &other.expires_at)
            && self.verification_status == other.verification_status
            && opt_same(&self.verified_at, &other.verified_at)
            && opt_same(&self.classified_at, &other.classified_at)
            && opt_same(&self.superseded_by_memory_id, &other.superseded_by_memory_id)
            && opt_same(&self.merged_from, &other.merged_from)
            && opt_same(&self.metadata_json, &other.metadata_json)
    }
}

impl Clone for ShadowMemoryRow {
    fn clone(&self) -> (r: Self)
        ensures
            r@ == self@,
    {
        self.dup()
    }
}

/// A project memory as rendered into the prompt.
#[derive(Debug, Default, PartialEq, Eq)]
pub struct StoredMemory {
    pub id: i64,
    pub project_path: String,
    pub category: String,
    pub content: String,
    pub importance: Option<i32>,
    pub status: String,
    pub expires_at: Option<i64>,
    pub superseded_by_memory_id: Option<i64>,
    pub updated_at: i64,
}

/// What a [`StoredMemory`] holds.
#[verifier::ext_equal]
pub struct StoredMemoryModel {
    pub id: i64,
    pub project_path: Seq<char>,
    pub category: Seq<char>,
    pub content: Seq<char>,
    pub importance: Option<i32>,
    pub status: Seq<char>,
    pub expires_at: Option<i64>,
    pub superseded_by_memory_id: Option<i64>,
    pub updated_at: i64,
}

impl View for StoredMemory {
    type V = StoredMemoryModel;

    open spec fn view(&self) -> StoredMemoryModel {
        StoredMemoryModel {
            id: self.id,
            project_path: self.project_path@,
            category: self.category@,
            content: self.content@,
            importance: opt_view(self.importance),
            status: self.status@,
            expires_at: opt_view(self.expires_at),
            superseded_by_memory_id: opt_view(self.superseded_by_memory_id),
            updated_at: self.updated_at,
        }
    }
}

impl Row for StoredMemory {
    fn dup(&self) -> (r: Self) {
        StoredMemory {
            id: self.id,
            project_path: self.project_path.clone(),
            category: self.category.clone(),
            content: self.content.clone(),
            importance: opt_dup(&self.importance),
            status: self.status.clone(),
            expires_at: opt_dup(&self.expires_at),
            superseded_by_memory_id: opt_dup(&self.superseded_by_memory_id),
            updated_at: self.updated_at,
        }
    }

    fn same(&self, other: &Self) -> (r: bool) {
        self.id == other.id
            && self.project_path == other.project_path
            && self.category == other.category
            && self.content == other.content
            && opt_same(&self.importance, &other.importance)
            && self.status == other.status
            && opt_same(&self.expires_at, &other.expires_at)
            && opt_same(&self.superseded_by_memory_id, &other.superseded_by_memory_id)
            && self.updated_at == other.updated_at
    }
}

impl Clone for StoredMemory {
    fn clone(&self) -> (r: Self)
        ensures
            r@ == self@,
    {
        self.dup()
    }
}

/// The watermarks of the memories that a rendering has read.
#[derive(Debug, Default, PartialEq, Eq)]
pub struct MemoryRevision {
    pub project_paths: Vec<String>,
    pub max_memory_id: i64,
    pub mutation_cursor: i64,
}

/// What a [`MemoryRevision`] holds.
#[verifier::ext_equal]
pub struct MemoryRevisionModel {
    pub project_paths: Seq<Seq<char>>,
    pub max_memory_id: i64,
    pub mutation_cursor: i64,
}

impl View for MemoryRevision {
    type V = MemoryRevisionModel;

    open spec fn view(&self) -> MemoryRevisionModel {
        MemoryRevisionModel {
            project_paths: views(self.project_paths@),
            max_memory_id: self.max_memory_id,
            mutation_cursor: self.mutation_cursor,
        }
    }
}

impl Row for MemoryRevision {
    fn dup(&self) -> (r: Self) {
        MemoryRevision {
            project_paths: list_dup(&self.project_paths),
            max_memory_id: self.max_memory_id,
            mutation_cursor: self.mutation_cursor,
        }
    }

    fn same(&self, other: &Self) -> (r: bool) {
        list_same(&self.project_paths, &other.project_paths)
            && self.max_memory_id == other.max_memory_id
            && self.mutation_cursor == other.mutation_cursor
    }
}

impl Clone for MemoryRevision {
    fn clone(&self) -> (r: Self)
        ensures
            r@ == self@,
    {
        self.dup()
    }
}

/// Memories to render, with the watermarks they were read at.
#[derive(Debug, Default, PartialEq, Eq)]
pub struct MemoryRenderSnapshot {
    pub memories: Vec<StoredMemory>,
    pub revision: MemoryRevision,
}

/// What a [`MemoryRenderSnapshot`] holds.
#[verifier::ext_equal]
pub struct MemoryRenderSnapshotModel {
    pub memories: Seq<StoredMemoryModel>,
    pub revision: MemoryRevisionModel,
}

impl View for MemoryRenderSnapshot {
    type V = MemoryRenderSnapshotModel;

    open spec fn view(&self) -> MemoryRenderSnapshotModel {
        MemoryRenderSnapshotModel {
            memories: views(self.memories@),
            revision: self.revision@,
        }
    }
}

impl Row for MemoryRenderSnapshot {
    fn dup(&self) -> (r: Self) {
        MemoryRenderSnapshot {
            memories: list_dup(&self.memories),
            revision: self.revision.dup(),
        }
    }

    fn same(&self, other: &Self) -> (r: bool) {
        list_same(&self.memories, &other.memories)
            && self.revision.same(&other.revision)
    }
}

impl Clone for MemoryRenderSnapshot {
    fn clone(&self) -> (r: Self)
        ensures
            r@ == self@,
    {
        self.dup()
    }
}

/// A memory found by a search.
#[derive(Debug, Default, PartialEq, Eq)]
pub struct StoredMemorySearchRow {
    pub id: i64,
    pub project_path: String,
    pub category: String,
    pub content: String,
    pub updated_at: i64,
}

/// What a [`StoredMemorySearchRow`] holds.
#[verifier::ext_equal]
pub struct StoredMemorySearchRowModel {
    pub id: i64,
    pub project_path: Seq<char>,
    pub category: Seq<char>,
    pub content: Seq<char>,
    pub updated_at: i64,
}

impl View for StoredMemorySearchRow {
    type V = StoredMemorySearchRowModel;

    open spec fn view(&self) -> StoredMemorySearchRowModel {
        StoredMemorySearchRowModel {
            id: self.id,
            project_path: self.project_path@,
            category: self.category@,
            content: self.content@,
            updated_at: self.updated_at,
        }
    }
}

impl Row for StoredMemorySearchRow {
    fn dup(&self) -> (r: Self) {
        StoredMemorySearchRow {
            id: self.id,
            project_path: self.project_path.clone(),
            category: self.category.clone(),
            content: self.content.clone(),
            updated_at: self.updated_at,
        }
    }

    fn same(&self, other: &Self) -> (r: bool) {
        self.id == other.id
            && self.project_path == other.project_path
            && self.category == other.category
            && self.content == other.content
            && self.updated_at == other.updated_at
    }
}

impl Clone for StoredMemorySearchRow {
    fn clone(&self) -> (r: Self)
        ensures
            r@ == self@,
    {
        self.dup()
    }
}

/// A compartment found by a search.
#[derive(Debug, Default, PartialEq, Eq)]
pub struct StoredCompartmentSearchRow {
    pub sequence: i64,
    pub title: String,
    pub content: String,
    pub p1: Option<String>,
    pub p2: Option<String>,
    pub p3: Option<String>,
    pub p4: Option<String>,
    pub created_at: i64,
}

/// What a [`StoredCompartmentSearchRow`] holds.
#[verifier::ext_equal]
pub struct StoredCompartmentSearchRowModel {
    pub sequence: i64,
    pub title: Seq<char>,
    pub content: Seq<char>,
    pub p1: Option<Seq<char>>,
    pub p2: Option<Seq<char>>,
    pub p3: Option<Seq<char>>,
    pub p4: Option<Seq<char>>,
    pub created_at: i64,
}

impl View for StoredCompartmentSearchRow {
    type V = StoredCompartmentSearchRowModel;

    open spec fn view(&self) -> StoredCompartmentSearchRowModel {
        StoredCompartmentSearchRowModel {
            sequence: self.sequence,
            title: self.title@,
            content: self.content@,
            p1: opt_view(self.p1),
            p2: opt_view(self.p2),
            p3: opt_view(self.p3),
            p4: opt_view(self.p4),
            created_at: self.created_at,
        }
    }
}

impl Row for StoredCompartmentSearchRow {
    fn dup(&self) -> (r: Self) {
        StoredCompartmentSearchRow {
            sequence: self.sequence,
            title: self.title.clone(),
            content: self.content.clone(),
            p1: opt_dup(&self.p1),
            p2: opt_dup(&self.p2),
            p3: opt_dup(&self.p3),
            p4: opt_dup(&self.p4),
            created_at: self.created_at,
        }
    }

    fn same(&self, other: &Self) -> (r: bool) {
        self.sequence == other.sequence
            && self.title == other.title
            && self.content == other.content
            && opt_same(&self.p1, &other.p1)
            && opt_same(&self.p2, &other.p2)
            && opt_same(&self.p3, &other.p3)
            && opt_same(&self.p4, &other.p4)
            && self.created_at == other.created_at
    }
}

impl Clone for StoredCompartmentSearchRow {
    fn clone(&self) -> (r: Self)
        ensures
            r@ == self@,
    {
        self.dup()
    }
}

/// A fact that may become a project memory.
#[derive(Debug, Default, PartialEq, Eq)]
pub struct FactCandidate {
    pub category: String,
    pub content: String,
    pub importance: Option<i32>,
    pub expires_at: Option<i64>,
    pub source_session_id: Option<String>,
}

/// What a [`FactCandidate`] holds.
#[verifier::ext_equal]
pub struct FactCandidateModel {
    pub category: Seq<char>,
    pub content: Seq<char>,
    pub importance: Option<i32>,
    pub expires_at: Option<i64>,
    pub source_session_id: Option<Seq<char>>,
}

impl View for FactCandidate {
    type V = FactCandidateModel;

    open spec fn view(&self) -> FactCandidateModel {
        FactCandidateModel {
            category: self.category@,
            content: self.content@,
            importance: opt_view(self.importance),
            expires_at: opt_view(self.expires_at),
            source_session_id: opt_view(self.source_session_id),
        }
    }
}

impl Row for FactCandidate {
    fn dup(&self) -> (r: Self) {
        FactCandidate {
            category: self.category.clone(),
            content: self.content.clone(),
            importance: opt_dup(&self.importance),
            expires_at: opt_dup(&self.expires_at),
            source_session_id: opt_dup(&self.source_session_id),
        }
    }

    fn same(&self, other: &Self) -> (r: bool) {
        self.category == other.category
            && self.content == other.content
            && opt_same(&self.importance, &other.importance)
            && opt_same(&self.expires_at, &other.expires_at)
            && opt_same(&self.source_session_id, &other.source_session_id)
    }
}

impl Clone for FactCandidate {
    fn clone(&self) -> (r: Self)
        ensures
            r@ == self@,
    {
        self.dup()
    }
}

/// A memory that a promoted fact became.
#[derive(Debug, Default, PartialEq, Eq)]
pub struct PromotedRef {
    pub memory_id: i64,
    pub content: String,
}

/// What a [`PromotedRef`] holds.
#[verifier::ext_equal]
pub struct PromotedRefModel {
    pub memory_id: i64,
    pub content: Seq<char>,
}

impl View for PromotedRef {
    type V = PromotedRefModel;

    open spec fn view(&self) -> PromotedRefModel {
        PromotedRefModel {
            memory_id: self.memory_id,
            content: self.content@,
        }
    }
}

impl Row for PromotedRef {
    fn dup(&self) -> (r: Self) {
        PromotedRef {
            memory_id: self.memory_id,
            content: self.content.clone(),
        }
    }

    fn same(&self, other: &Self) -> (r: bool) {
        self.memory_id == other.memory_id
            && self.content == other.content
    }
}

impl Clone for PromotedRef {
    fn clone(&self) -> (r: Self)
        ensures
            r@ == self@,
    {
        self.dup()
    }
}

/// What must still hold of the session for a producer to publish.
#[derive(Debug, Default, PartialEq, Eq)]
pub struct HistorianPublishPredicate {
    pub firing_seq: u64,
    pub producer_run_id: String,
    pub chunk_fingerprint: String,
}

/// What a [`HistorianPublishPredicate`] holds.
#[verifier::ext_equal]
pub struct HistorianPublishPredicateModel {
    pub firing_seq: u64,
    pub producer_run_id: Seq<char>,
    pub chunk_fingerprint: Seq<char>,
}

impl View for HistorianPublishPredicate {
    type V = HistorianPublishPredicateModel;

    open spec fn view(&self) -> HistorianPublishPredicateModel {
        HistorianPublishPredicateModel {
            firing_seq: self.firing_seq,
            producer_run_id: self.producer_run_id@,
            chunk_fingerprint: self.chunk_fingerprint@,
        }
    }
}

impl Row for HistorianPublishPredicate {
    fn dup(&self) -> (r: Self) {
        HistorianPublishPredicate {
            firing_seq: self.firing_seq,
            producer_run_id: self.producer_run_id.clone(),
            chunk_fingerprint: self.chunk_fingerprint.clone(),
        }
    }

    fn same(&self, other: &Self) -> (r: bool) {
        self.firing_seq == other.firing_seq
            && self.producer_run_id == other.producer_run_id
            && self.chunk_fingerprint == other.chunk_fingerprint
    }
}

impl Clone for HistorianPublishPredicate {
    fn clone(&self) -> (r: Self)
        ensures
            r@ == self@,
    {
        self.dup()
    }
}

/// What a publication did.
#[derive(Debug, Default, PartialEq, Eq)]
pub struct HistorianPublishResult {
    pub row_version: u64,
    pub promoted_refs: Vec<PromotedRef>,
}

/// What a [`HistorianPublishResult`] holds.
#[verifier::ext_equal]
pub struct HistorianPublishResultModel {
    pub row_version: u64,
    pub promoted_refs: Seq<PromotedRefModel>,
}

impl View for HistorianPublishResult {
    type V = HistorianPublishResultModel;

    open spec fn view(&self) -> HistorianPublishResultModel {
        HistorianPublishResultModel {
            row_version: self.row_version,
            promoted_refs: views(self.promoted_refs@),
        }
    }
}

impl Row for HistorianPublishResult {
    fn dup(&self) -> (r: Self) {
        HistorianPublishResult {
            row_version: self.row_version,
            promoted_refs: list_dup(&self.promoted_refs),
        }
    }

    fn same(&self, other: &Self) -> (r: bool) {
        self.row_version == other.row_version
            && list_same(&self.promoted_refs, &other.promoted_refs)
    }
}

impl Clone for HistorianPublishResult {
    fn clone(&self) -> (r: Self)
        ensures
            r@ == self@,
    {
        self.dup()
    }
}

/// The compartments of a session with the revert epoch they were read at.
#[derive(Debug, Default, PartialEq, Eq)]
pub struct HistorianAssemblySnapshot {
    pub compartments: Vec<StoredCompartment>,
    pub revert_epoch: u64,
}

/// What a [`HistorianAssemblySnapshot`] holds.
#[verifier::ext_equal]
pub struct HistorianAssemblySnapshotModel {
    pub compartments: Seq<StoredCompartmentModel>,
    pub revert_epoch: u64,
}

impl View for HistorianAssemblySnapshot {
    type V = HistorianAssemblySnapshotModel;

    open spec fn view(&self) -> HistorianAssemblySnapshotModel {
        HistorianAssemblySnapshotModel {
            compartments: views(self.compartments@),
            revert_epoch: self.revert_epoch,
        }
    }
}

impl Row for HistorianAssemblySnapshot {
    fn dup(&self) -> (r: Self) {
        HistorianAssemblySnapshot {
            compartments: list_dup(&self.compartments),
            revert_epoch: self.revert_epoch,
        }
    }

    fn same(&self, other: &Self) -> (r: bool) {
        list_same(&self.compartments, &other.compartments)
            && self.revert_epoch == other.revert_epoch
    }
}

impl Clone for HistorianAssemblySnapshot {
    fn clone(&self) -> (r: Self)
        ensures
            r@ == self@,
    {
        self.dup()
    }
}

/// What cutting the history did.
#[derive(Debug, Default, PartialEq, Eq)]
pub struct TruncateOutcome {
    pub revert_epoch: u64,
    pub last_recut: Option<String>,
    pub row_version: u64,
}

/// What a [`TruncateOutcome`] holds.
#[verifier::ext_equal]
pub struct TruncateOutcomeModel {
    pub revert_epoch: u64,
    pub last_recut: Option<Seq<char>>,
    pub row_version: u64,
}

impl View for TruncateOutcome {
    type V = TruncateOutcomeModel;

    open spec fn view(&self) -> TruncateOutcomeModel {
        TruncateOutcomeModel {
            revert_epoch: self.revert_epoch,
            last_recut: opt_view(self.last_recut),
            row_version: self.row_version,
        }
    }
}

impl Row for TruncateOutcome {
    fn dup(&self) -> (r: Self) {
        TruncateOutcome {
            revert_epoch: self.revert_epoch,
            last_recut: opt_dup(&self.last_recut),
            row_version: self.row_version,
        }
    }

    fn same(&self, other: &Self) -> (r: bool) {
        self.revert_epoch == other.revert_epoch
            && opt_same(&self.last_recut, &other.last_recut)
            && self.row_version == other.row_version
    }
}

impl Clone for TruncateOutcome {
    fn clone(&self) -> (r: Self)
        ensures
            r@ == self@,
    {
        self.dup()
    }
}

/// A session note.
#[derive(Debug, Default, PartialEq, Eq)]
pub struct StoredNote {
    pub id: i64,
    pub project_path: String,
    pub session_id: String,
    pub content: String,
    pub status: String,
    pub surface_condition: Option<String>,
    pub anchor_block_id: Option<String>,
    pub created_at_ms: i64,
    pub updated_at_ms: i64,
}

/// What a [`StoredNote`] holds.
#[verifier::ext_equal]
pub struct StoredNoteModel {
    pub id: i64,
    pub project_path: Seq<char>,
    pub session_id: Seq<char>,
    pub content: Seq<char>,
    pub status: Seq<char>,
    pub surface_condition: Option<Seq<char>>,
    pub anchor_block_id: Option<Seq<char>>,
    pub created_at_ms: i64,
    pub updated_at_ms: i64,
}

impl View for StoredNote {
    type V = StoredNoteModel;

    open spec fn view(&self) -> StoredNoteModel {
        StoredNoteModel {
            id: self.id,
            project_path: self.project_path@,
            session_id: self.session_id@,
            content: self.content@,
            status: self.status@,
            surface_condition: opt_view(self.surface_condition),
            anchor_block_id: opt_view(self.anchor_block_id),
            created_at_ms: self.created_at_ms,
            updated_at_ms: self.updated_at_ms,
        }
    }
}

impl Row for StoredNote {
    fn dup(&self) -> (r: Self) {
        StoredNote {
            id: self.id,
            project_path: self.project_path.clone(),
            session_id: self.session_id.clone(),
            content: self.content.clone(),
            status: self.status.clone(),
            surface_condition: opt_dup(&self.surface_condition),
            anchor_block_id: opt_dup(&self.anchor_block_id),
            created_at_ms: self.created_at_ms,
            updated_at_ms: self.updated_at_ms,
        }
    }

    fn same(&self, other: &Self) -> (r: bool) {
        self.id == other.id
            && self.project_path == other.project_path
            && self.session_id == other.session_id
            && self.content == other.content
            && self.status == other.status
            && opt_same(&self.surface_condition, &other.surface_condition)
            && opt_same(&self.anchor_block_id, &other.anchor_block_id)
            && self.created_at_ms == other.created_at_ms
            && self.updated_at_ms == other.updated_at_ms
    }
}

impl Clone for StoredNote {
    fn clone(&self) -> (r: Self)
        ensures
            r@ == self@,
    {
        self.dup()
    }
}

/// A note found by a search.
#[derive(Debug, Default, PartialEq, Eq)]
pub struct StoredNoteSearchRow {
    pub id: i64,
    pub content: String,
    pub status: String,
    pub surface_condition: Option<String>,
    pub updated_at_ms: i64,
}

/// What a [`StoredNoteSearchRow`] holds.
#[verifier::ext_equal]
pub struct StoredNoteSearchRowModel {
    pub id: i64,
    pub content: Seq<char>,
    pub status: Seq<char>,
    pub surface_condition: Option<Seq<char>>,
    pub updated_at_ms: i64,
}

impl View for StoredNoteSearchRow {
    type V = StoredNoteSearchRowModel;

    open spec fn view(&self) -> StoredNoteSearchRowModel {
        StoredNoteSearchRowModel {
            id: self.id,
            content: self.content@,
            status: self.status@,
            surface_condition: opt_view(self.surface_condition),
            updated_at_ms: self.updated_at_ms,
        }
    }
}

impl Row for StoredNoteSearchRow {
    fn dup(&self) -> (r: Self) {
        StoredNoteSearchRow {
            id: self.id,
            content: self.content.clone(),
            status: self.status.clone(),
            surface_condition: opt_dup(&self.surface_condition),
            updated_at_ms: self.updated_at_ms,
        }
    }

    fn same(&self, other: &Self) -> (r: bool) {
        self.id == other.id
            && self.content == other.content
            && self.status == other.status
            && opt_same(&self.surface_condition, &other.surface_condition)
            && self.updated_at_ms == other.updated_at_ms
    }
}

impl Clone for StoredNoteSearchRow {
    fn clone(&self) -> (r: Self)
        ensures
            r@ == self@,
    {
        self.dup()
    }
}

/// A memory about the user, shared by all projects.
#[derive(Debug, Default, PartialEq, Eq)]
pub struct UserMemoryRow {
    pub id: i64,
    pub content: String,
    pub status: String,
    pub promoted_at: i64,
}

/// What a [`UserMemoryRow`] holds.
#[verifier::ext_equal]
pub struct UserMemoryRowModel {
    pub id: i64,
    pub content: Seq<char>,
    pub status: Seq<char>,
    pub promoted_at: i64,
}

impl View for UserMemoryRow {
    type V = UserMemoryRowModel;

    open spec fn view(&self) -> UserMemoryRowModel {
        UserMemoryRowModel {
            id: self.id,
            content: self.content@,
            status: self.status@,
            promoted_at: self.promoted_at,
        }
    }
}

impl Row for UserMemoryRow {
    fn dup(&self) -> (r: Self) {
        UserMemoryRow {
            id: self.id,
            content: self.content.clone(),
            status: self.status.clone(),
            promoted_at: self.promoted_at,
        }
    }

    fn same(&self, other: &Self) -> (r: bool) {
        self.id == other.id
            && self.content == other.content
            && self.status == other.status
            && self.promoted_at == other.promoted_at
    }
}

impl Clone for UserMemoryRow {
    fn clone(&self) -> (r: Self)
        ensures
            r@ == self@,
    {
        self.dup()
    }
}

/// A workspace; `share_categories` is the JSON text of a list of categories.
#[derive(Debug, Default, PartialEq, Eq)]
pub struct WorkspaceRow {
    pub id: i64,
    pub name: String,
    pub created_at: i64,
    pub updated_at: i64,
    pub share_categories: String,
}

/// What a [`WorkspaceRow`] holds.
#[verifier::ext_equal]
pub struct WorkspaceRowModel {
    pub id: i64,
    pub name: Seq<char>,
    pub created_at: i64,
    pub updated_at: i64,
    pub share_categories: Seq<char>,
}

impl View for WorkspaceRow {
    type V = WorkspaceRowModel;

    open spec fn view(&self) -> WorkspaceRowModel {
        WorkspaceRowModel {
            id: self.id,
            name: self.name@,
            created_at: self.created_at,
            updated_at: self.updated_at,
            share_categories: self.share_categories@,
        }
    }
}

impl Row for WorkspaceRow {
    fn dup(&self) -> (r: Self) {
        WorkspaceRow {
            id: self.id,
            name: self.name.clone(),
            created_at: self.created_at,
            updated_at: self.updated_at,
            share_categories: self.share_categories.clone(),
        }
    }

    fn same(&self, other: &Self) -> (r: bool) {
        self.id == other.id
            && self.name == other.name
            && self.created_at == other.created_at
            && self.updated_at == other.updated_at
            && self.share_categories == other.share_categories
    }
}

impl Clone for WorkspaceRow {
    fn clone(&self) -> (r: Self)
        ensures
            r@ == self@,
    {
        self.dup()
    }
}

/// A project in a workspace.
#[derive(Debug, Default, PartialEq, Eq)]
pub struct WorkspaceMemberRow {
    pub workspace_id: i64,
    pub project_path: String,
    pub display_name: String,
    pub display_path: String,
    pub added_at: i64,
}

/// What a [`WorkspaceMemberRow`] holds.
#[verifier::ext_equal]
pub struct WorkspaceMemberRowModel {
    pub workspace_id: i64,
    pub project_path: Seq<char>,
    pub display_name: Seq<char>,
    pub display_path: Seq<char>,
    pub added_at: i64,
}

impl View for WorkspaceMemberRow {
    type V = WorkspaceMemberRowModel;

    open spec fn view(&self) -> WorkspaceMemberRowModel {
        WorkspaceMemberRowModel {
            workspace_id: self.workspace_id,
            project_path: self.project_path@,
            display_name: self.display_name@,
            display_path: self.display_path@,
            added_at: self.added_at,
        }
    }
}

impl Row for WorkspaceMemberRow {
    fn dup(&self) -> (r: Self) {
        WorkspaceMemberRow {
            workspace_id: self.workspace_id,
            project_path: self.project_path.clone(),
            display_name: self.display_name.clone(),
            display_path: self.display_path.clone(),
            added_at: self.added_at,
        }
    }

    fn same(&self, other: &Self) -> (r: bool) {
        self.workspace_id == other.workspace_id
            && self.project_path == other.project_path
            && self.display_name == other.display_name
            && self.display_path == other.display_path
            && self.added_at == other.added_at
    }
}

impl Clone for WorkspaceMemberRow {
    fn clone(&self) -> (r: Self)
        ensures
            r@ == self@,
    {
        self.dup()
    }
}

/// The display name of a workspace member.
#[derive(Debug, Default, PartialEq, Eq)]
pub struct MemberName {
    pub project_path: String,
    pub display_name: String,
}

/// What a [`MemberName`] holds.
#[verifier::ext_equal]
pub struct MemberNameModel {
    pub project_path: Seq<char>,
    pub display_name: Seq<char>,
}

impl View for MemberName {
    type V = MemberNameModel;

    open spec fn view(&self) -> MemberNameModel {
        MemberNameModel {
            project_path: self.project_path@,
            display_name: self.display_name@,
        }
    }
}

impl Row for MemberName {
    fn dup(&self) -> (r: Self) {
        MemberName {
            project_path: self.project_path.clone(),
            display_name: self.display_name.clone(),
        }
    }

    fn same(&self, other: &Self) -> (r: bool) {
        self.project_path == other.project_path
            && self.display_name == other.display_name
    }
}

impl Clone for MemberName {
    fn clone(&self) -> (r: Self)
        ensures
            r@ == self@,
    {
        self.dup()
    }
}

/// The workspace as one of its projects sees it.
#[derive(Debug, Default, PartialEq, Eq)]
pub struct WorkspaceMembership {
    /// The projects of the workspace.
    pub union_identities: Vec<String>,
    /// The project that asks; it sees all of its own memories.
    pub own_identity: String,
    /// The categories in which the other projects share theirs.
    pub share_categories: Vec<String>,
    /// Display names, one entry per project.
    pub display_name_by_path: Vec<MemberName>,
}

/// What a [`WorkspaceMembership`] holds.
#[verifier::ext_equal]
pub struct WorkspaceMembershipModel {
    pub union_identities: Seq<Seq<char>>,
    pub own_identity: Seq<char>,
    pub share_categories: Seq<Seq<char>>,
    pub display_name_by_path: Seq<MemberNameModel>,
}

impl View for WorkspaceMembership {
    type V = WorkspaceMembershipModel;

    open spec fn view(&self) -> WorkspaceMembershipModel {
        WorkspaceMembershipModel {
            union_identities: views(self.union_identities@),
            own_identity: self.own_identity@,
            share_categories: views(self.share_categories@),
            display_name_by_path: views(self.display_name_by_path@),
        }
    }
}

impl Row for WorkspaceMembership {
    fn dup(&self) -> (r: Self) {
        WorkspaceMembership {
            union_identities: list_dup(&self.union_identities),
            own_identity: self.own_identity.clone(),
            share_categories: list_dup(&self.share_categories),
            display_name_by_path: list_dup(&self.display_name_by_path),
        }
    }

    fn same(&self, other: &Self) -> (r: bool) {
        list_same(&self.union_identities, &other.union_identities)
            && self.own_identity == other.own_identity
            && list_same(&self.share_categories, &other.share_categories)
            && list_same(&self.display_name_by_path, &other.display_name_by_path)
    }
}

impl Clone for WorkspaceMembership {
    fn clone(&self) -> (r: Self)
        ensures
            r@ == self@,
    {
        self.dup()
    }
}

/// A member of a mirrored workspace.
#[derive(Debug, Default, PartialEq, Eq)]
pub struct ShadowWorkspaceMemberRow {
    pub project_path: String,
    pub display_name: String,
    pub display_path: String,
}

/// What a [`ShadowWorkspaceMemberRow`] holds.
#[verifier::ext_equal]
pub struct ShadowWorkspaceMemberRowModel {
    pub project_path: Seq<char>,
    pub display_name: Seq<char>,
    pub display_path: Seq<char>,
}

impl View for ShadowWorkspaceMemberRow {
    type V = ShadowWorkspaceMemberRowModel;

    open spec fn view(&self) -> ShadowWorkspaceMemberRowModel {
        ShadowWorkspaceMemberRowModel {
            project_path: self.project_path@,
            display_name: self.display_name@,
            display_path: self.display_path@,
        }
    }
}

impl Row for ShadowWorkspaceMemberRow {
    fn dup(&self) -> (r: Self) {
        ShadowWorkspaceMemberRow {
            project_path: self.project_path.clone(),
            display_name: self.display_name.clone(),
            display_path: self.display_path.clone(),
        }
    }

    fn same(&self, other: &Self) -> (r: bool) {
        self.project_path == other.project_path
            && self.display_name == other.display_name
            && self.display_path == other.display_path
    }
}

impl Clone for ShadowWorkspaceMemberRow {
    fn clone(&self) -> (r: Self)
        ensures
            r@ == self@,
    {
        self.dup()
    }
}

/// A workspace mirrored from a shadow sender.
#[derive(Debug, Default, PartialEq, Eq)]
pub struct ShadowWorkspaceRow {
    pub name: String,
    pub share_categories: Vec<String>,
    pub members: Vec<ShadowWorkspaceMemberRow>,
}

/// What a [`ShadowWorkspaceRow`] holds.
#[verifier::ext_equal]
pub struct ShadowWorkspaceRowModel {
    pub name: Seq<char>,
    pub share_categories: Seq<Seq<char>>,
    pub members: Seq<ShadowWorkspaceMemberRowModel>,
}

impl View for ShadowWorkspaceRow {
    type V = ShadowWorkspaceRowModel;

    open spec fn view(&self) -> ShadowWorkspaceRowModel {
        ShadowWorkspaceRowModel {
            name: self.name@,
            share_categories: views(self.share_categories@),
            members: views(self.members@),
        }
    }
}

impl Row for ShadowWorkspaceRow {
    fn dup(&self) -> (r: Self) {
        ShadowWorkspaceRow {
            name: self.name.clone(),
            share_categories: list_dup(&self.share_categories),
            members: list_dup(&self.members),
        }
    }

    fn same(&self, other: &Self) -> (r: bool) {
        self.name == other.name
            && list_same(&self.share_categories, &other.share_categories)
            && list_same(&self.members, &other.members)
    }
}

impl Clone for ShadowWorkspaceRow {
    fn clone(&self) -> (r: Self)
        ensures
            r@ == self@,
    {
        self.dup()
    }
}

/// What a shadow state sync did.
#[derive(Debug, Clone, Copy, Default, PartialEq, Eq, Structural)]
pub struct ShadowStateSyncResult {
    pub shadow_generation: u64,
    pub shadow_seq: u64,
    pub row_version: u64,
}

impl View for ShadowStateSyncResult {
    type V = ShadowStateSyncResult;

    open spec fn view(&self) -> ShadowStateSyncResult {
        *self
    }
}

impl Row for ShadowStateSyncResult {
    fn dup(&self) -> (r: Self) {
        *self
    }

    fn same(&self, other: &Self) -> (r: bool) {
        *self == *other
    }
}

/// What a shadow reset did.
#[derive(Debug, Clone, Copy, Default, PartialEq, Eq, Structural)]
pub struct ShadowResetResult {
    pub shadow_generation: u64,
    pub shadow_seq: u64,
    pub row_version: u64,
}

impl View for ShadowResetResult {
    type V = ShadowResetResult;

    open spec fn view(&self) -> ShadowResetResult {
        *self
    }
}

impl Row for ShadowResetResult {
    fn dup(&self) -> (r: Self) {
        *self
    }

    fn same(&self, other: &Self) -> (r: bool) {
        *self == *other
    }
}

/// What recording a divergence did.
#[derive(Debug, Clone, Copy, Default, PartialEq, Eq, Structural)]
pub struct ShadowDivergenceWriteResult {
    pub quarantined: bool,
    pub row_version: u64,
}

impl View for ShadowDivergenceWriteResult {
    type V = ShadowDivergenceWriteResult;

    open spec fn view(&self) -> ShadowDivergenceWriteResult {
        *self
    }
}

impl Row for ShadowDivergenceWriteResult {
    fn dup(&self) -> (r: Self) {
        *self
    }

    fn same(&self, other: &Self) -> (r: bool) {
        *self == *other
    }
}

/// One recorded divergence of a shadow session.
#[derive(Debug, Default, PartialEq, Eq)]
pub struct ShadowDivergenceRow {
    pub id: i64,
    pub session_id: String,
    pub pass_seq: u64,
    pub class: String,
    pub first_mid: Option<String>,
    pub first_block: Option<String>,
    pub first_field: Option<String>,
    pub ts_prefix: String,
    pub rs_prefix: String,
    pub first_diff_offset: Option<u64>,
    pub ts_window: String,
    pub rs_window: String,
    pub normalizations_json: String,
    pub ts_decision_json: String,
    pub rs_decision_json: String,
    pub state_hash: String,
    pub created_at_ms: i64,
}

/// What a [`ShadowDivergenceRow`] holds.
#[verifier::ext_equal]
pub struct ShadowDivergenceRowModel {
    pub id: i64,
    pub session_id: Seq<char>,
    pub pass_seq: u64,
    pub class: Seq<char>,
    pub first_mid: Option<Seq<char>>,
    pub first_block: Option<Seq<char>>,
    pub first_field: Option<Seq<char>>,
    pub ts_prefix: Seq<char>,
    pub rs_prefix: Seq<char>,
    pub first_diff_offset: Option<u64>,
    pub ts_window: Seq<char>,
    pub rs_window: Seq<char>,
    pub normalizations_json: Seq<char>,
    pub ts_decision_json: Seq<char>,
    pub rs_decision_json: Seq<char>,
    pub state_hash: Seq<char>,
    pub created_at_ms: i64,
}

impl View for ShadowDivergenceRow {
    type V = ShadowDivergenceRowModel;

    open spec fn view(&self) -> ShadowDivergenceRowModel {
        ShadowDivergenceRowModel {
            id: self.id,
            session_id: self.session_id@,
            pass_seq: self.pass_seq,
            class: self.class@,
            first_mid: opt_view(self.first_mid),
            first_block: opt_view(self.first_block),
            first_field: opt_view(self.first_field),
            ts_prefix: self.ts_prefix@,
            rs_prefix: self.rs_prefix@,
            first_diff_offset: opt_view(self.first_diff_offset),
            ts_window: self.ts_window@,
            rs_window: self.rs_window@,
            normalizations_json: self.normalizations_json@,
            ts_decision_json: self.ts_decision_json@,
            rs_decision_json: self.rs_decision_json@,
            state_hash: self.state_hash@,
            created_at_ms: self.created_at_ms,
        }
    }
}

impl Row for ShadowDivergenceRow {
    fn dup(&self) -> (r: Self) {
        ShadowDivergenceRow {
            id: self.id,
            session_id: self.session_id.clone(),
            pass_seq: self.pass_seq,
            class: self.class.clone(),
            first_mid: opt_dup(&self.first_mid),
            first_block: opt_dup(&self.first_block),
            first_field: opt_dup(&self.first_field),
            ts_prefix: self.ts_prefix.clone(),
            rs_prefix: self.rs_prefix.clone(),
            first_diff_offset: opt_dup(&self.first_diff_offset),
            ts_window: self.ts_window.clone(),
            rs_window: self.rs_window.clone(),
            normalizations_json: self.normalizations_json.clone(),
            ts_decision_json: self.ts_decision_json.clone(),
            rs_decision_json: self.rs_decision_json.clone(),
            state_hash: self.state_hash.clone(),
            created_at_ms: self.created_at_ms,
        }
    }

    fn same(&self, other: &Self) -> (r: bool) {
        self.id == other.id
            && self.session_id == other.session_id
            && self.pass_seq == other.pass_seq
            && self.class == other.class
            && opt_same(&self.first_mid, &other.first_mid)
            && opt_same(&self.first_block, &other.first_block)
            && opt_same(&self.first_field, &other.first_field)
            && self.ts_prefix == other.ts_prefix
            && self.rs_prefix == other.rs_prefix
            && opt_same(&self.first_diff_offset, &other.first_diff_offset)
            && self.ts_window == other.ts_window
            && self.rs_window == other.rs_window
            && self.normalizations_json == other.normalizations_json
            && self.ts_decision_json == other.ts_decision_json
            && self.rs_decision_json == other.rs_decision_json
            && self.state_hash == other.state_hash
            && self.created_at_ms == other.created_at_ms
    }
}

impl Clone for ShadowDivergenceRow {
    fn clone(&self) -> (r: Self)
        ensures
            r@ == self@,
    {
        self.dup()
    }
}

} // verus!
