//! The durable store: its tables and the operations on them.
//!
//! The store is a set of tables held in memory; whoever owns the store saves the tables
//! that an operation changed. Every operation is atomic: it either does all that its
//! contract says, or fails and leaves every table as it was.

use vstd::prelude::*;

use crate::rows::{views, Keyed, KeyedModel};
use crate::store::records::{
    CacheRow, CacheRowModel, Channel1AppendRow, Channel1AppendRowModel, ImportRow, ImportRowModel,
    LedgerRow, LedgerRowModel, McTagRow, McTagRowModel, PassTrace, PassTraceModel,
    PendingAgentDrop, PendingAgentDropModel, ShadowDivergenceRow, ShadowDivergenceRowModel,
    ShadowMemoryMutationRow, ShadowMemoryMutationRowModel, ShadowMemoryRow, ShadowMemoryRowModel,
    StoredCompartment, StoredCompartmentModel, StoredMemoryFull, StoredMemoryFullModel, StoredNote,
    StoredNoteModel, TranscriptRow, TranscriptRowModel, UserHintRow, UserHintRowModel,
    UserMemoryRow, UserMemoryRowModel, WorkspaceMemberRow, WorkspaceMemberRowModel, WorkspaceRow,
    WorkspaceRowModel,
};

pub mod cache;
pub mod compartments;
pub mod drops;
pub mod errors;
pub mod facts;
pub mod import;
pub mod integrity;
pub mod laws;
pub mod limits;
pub mod memories;
pub mod merging;
pub mod mutations;
pub mod notes;
pub mod overlays;
pub mod publish;
pub mod reading;
pub mod records;
pub mod revert;
pub mod search;
pub mod shadow;
pub mod tags;
pub mod trace;
pub mod transcripts;
pub mod workspace;

verus! {

/// The tables of the store. A `last_*_id` is the largest number its table ever assigned.
#[derive(Debug, PartialEq, Eq)]
pub struct McStore {
    /// Cache state, one row per session.
    pub cache: Vec<Keyed<CacheRow>>,
    pub compartments: Vec<Keyed<StoredCompartment>>,
    pub memories: Vec<StoredMemoryFull>,
    pub last_memory_id: i64,
    /// The memory mutation log.
    pub mutations: Vec<ShadowMemoryMutationRow>,
    pub last_mutation_id: i64,
    pub user_memories: Vec<UserMemoryRow>,
    pub workspaces: Vec<WorkspaceRow>,
    pub last_workspace_id: i64,
    pub members: Vec<WorkspaceMemberRow>,
    /// Queued agent drops.
    pub drops: Vec<Keyed<PendingAgentDrop>>,
    pub last_drop_id: i64,
    /// Commands whose drops were queued.
    pub ledger: Vec<Keyed<LedgerRow>>,
    pub shadow_memories: Vec<ShadowMemoryRow>,
    pub shadow_mutations: Vec<ShadowMemoryMutationRow>,
    pub divergences: Vec<ShadowDivergenceRow>,
    pub last_divergence_id: i64,
    /// Pass traces, one row per session.
    pub traces: Vec<Keyed<PassTrace>>,
    pub transcripts: Vec<Keyed<TranscriptRow>>,
    pub notes: Vec<StoredNote>,
    pub last_note_id: i64,
    pub tags: Vec<Keyed<McTagRow>>,
    pub channel1_appends: Vec<Keyed<Channel1AppendRow>>,
    pub user_hints: Vec<Keyed<UserHintRow>>,
    /// Completed imports, one row per session.
    pub imports: Vec<Keyed<ImportRow>>,
}

/// What the store holds.
#[verifier::ext_equal]
pub struct McStoreModel {
    pub cache: Seq<KeyedModel<CacheRowModel>>,
    pub compartments: Seq<KeyedModel<StoredCompartmentModel>>,
    pub memories: Seq<StoredMemoryFullModel>,
    pub last_memory_id: i64,
    pub mutations: Seq<ShadowMemoryMutationRowModel>,
    pub last_mutation_id: i64,
    pub user_memories: Seq<UserMemoryRowModel>,
    pub workspaces: Seq<WorkspaceRowModel>,
    pub last_workspace_id: i64,
    pub members: Seq<WorkspaceMemberRowModel>,
    pub drops: Seq<KeyedModel<PendingAgentDropModel>>,
    pub last_drop_id: i64,
    pub ledger: Seq<KeyedModel<LedgerRowModel>>,
    pub shadow_memories: Seq<ShadowMemoryRowModel>,
    pub shadow_mutations: Seq<ShadowMemoryMutationRowModel>,
    pub divergences: Seq<ShadowDivergenceRowModel>,
    pub last_divergence_id: i64,
    pub traces: Seq<KeyedModel<PassTraceModel>>,
    pub transcripts: Seq<KeyedModel<TranscriptRowModel>>,
    pub notes: Seq<StoredNoteModel>,
    pub last_note_id: i64,
    pub tags: Seq<KeyedModel<McTagRowModel>>,
    pub channel1_appends: Seq<KeyedModel<Channel1AppendRowModel>>,
    pub user_hints: Seq<KeyedModel<UserHintRowModel>>,
    pub imports: Seq<KeyedModel<ImportRowModel>>,
}

impl View for McStore {
    type V = McStoreModel;

    open spec fn view(&self) -> McStoreModel {
        McStoreModel {
            cache: views(self.cache@),
            compartments: views(self.compartments@),
            memories: views(self.memories@),
            last_memory_id: self.last_memory_id,
            mutations: views(self.mutations@),
            last_mutation_id: self.last_mutation_id,
            user_memories: views(self.user_memories@),
            workspaces: views(self.workspaces@),
            last_workspace_id: self.last_workspace_id,
            members: views(self.members@),
            drops: views(self.drops@),
            last_drop_id: self.last_drop_id,
            ledger: views(self.ledger@),
            shadow_memories: views(self.shadow_memories@),
            shadow_mutations: views(self.shadow_mutations@),
            divergences: views(self.divergences@),
            last_divergence_id: self.last_divergence_id,
            traces: views(self.traces@),
            transcripts: views(self.transcripts@),
            notes: views(self.notes@),
            last_note_id: self.last_note_id,
            tags: views(self.tags@),
            channel1_appends: views(self.channel1_appends@),
            user_hints: views(self.user_hints@),
            imports: views(self.imports@),
        }
    }
}

/// The store with no rows.
pub open spec fn empty_store() -> McStoreModel {
    McStoreModel {
        cache: Seq::empty(),
        compartments: Seq::empty(),
        memories: Seq::empty(),
        last_memory_id: 0,
        mutations: Seq::empty(),
        last_mutation_id: 0,
        user_memories: Seq::empty(),
        workspaces: Seq::empty(),
        last_workspace_id: 0,
        members: Seq::empty(),
        drops: Seq::empty(),
        last_drop_id: 0,
        ledger: Seq::empty(),
        shadow_memories: Seq::empty(),
        shadow_mutations: Seq::empty(),
        divergences: Seq::empty(),
        last_divergence_id: 0,
        traces: Seq::empty(),
        transcripts: Seq::empty(),
        notes: Seq::empty(),
        last_note_id: 0,
        tags: Seq::empty(),
        channel1_appends: Seq::empty(),
        user_hints: Seq::empty(),
        imports: Seq::empty(),
    }
}

impl McStore {
    /// A store with no rows.
    pub fn new() -> (r: Self)
        ensures
            r@ == empty_store(),
            integrity::well_formed(r@),
    {
        broadcast use crate::rows::group_views;

        proof {
            integrity::an_empty_store_is_well_formed();
        }

        McStore {
            cache: Vec::new(),
            compartments: Vec::new(),
            memories: Vec::new(),
            last_memory_id: 0,
            mutations: Vec::new(),
            last_mutation_id: 0,
            user_memories: Vec::new(),
            workspaces: Vec::new(),
            last_workspace_id: 0,
            members: Vec::new(),
            drops: Vec::new(),
            last_drop_id: 0,
            ledger: Vec::new(),
            shadow_memories: Vec::new(),
            shadow_mutations: Vec::new(),
            divergences: Vec::new(),
            last_divergence_id: 0,
            traces: Vec::new(),
            transcripts: Vec::new(),
            notes: Vec::new(),
            last_note_id: 0,
            tags: Vec::new(),
            channel1_appends: Vec::new(),
            user_hints: Vec::new(),
            imports: Vec::new(),
        }
    }
}

} // verus!
