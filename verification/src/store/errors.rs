//! The errors of the store.

use vstd::prelude::*;

use crate::meta::{HistorianDurableState, HistorianDurableStateModel};
use crate::rows::opt_view;
use crate::store::records::{HistorianPublishPredicate, HistorianPublishPredicateModel};
use crate::text::{
    i64_text, int_text, opt_count, opt_count_text, owned, quoted, quoted_text, u64_text,
};

verus! {

/// Why the tables refused an operation. Nothing of a write is kept.
#[derive(Debug, Clone, Copy, PartialEq, Eq, Structural)]
pub enum StoreError {
    /// A row would break a uniqueness rule or hold a value outside its column's domain.
    Constraint,
    /// No larger row number is left to assign.
    Exhausted,
    /// A statement would bind more values than one takes.
    TooManyValues,
    /// A search pattern is longer than a search takes.
    PatternTooComplex,
    /// A sum of counts does not fit its column.
    IntegerOverflow,
}

impl StoreError {
    /// The text of the error.
    pub open spec fn message(self) -> Seq<char> {
        match self {
            StoreError::Constraint => "constraint failed"@,
            StoreError::Exhausted => "row numbers exhausted"@,
            StoreError::TooManyValues => "too many SQL variables"@,
            StoreError::PatternTooComplex => "LIKE or GLOB pattern too complex"@,
            StoreError::IntegerOverflow => "integer overflow"@,
        }
    }

    /// Writes the error out.
    pub fn text(&self) -> (r: &'static str)
        ensures
            r@ == self.message(),
    {
        match self {
            StoreError::Constraint => "constraint failed",
            StoreError::Exhausted => "row numbers exhausted",
            StoreError::TooManyValues => "too many SQL variables",
            StoreError::PatternTooComplex => "LIKE or GLOB pattern too complex",
            StoreError::IntegerOverflow => "integer overflow",
        }
    }
}

/// Failures of a store operation.
#[derive(Debug, PartialEq, Eq)]
pub enum McStoreError {
    Store(StoreError),
    /// The row version moved: another writer committed first.
    CasConflict { expected: Option<u64>, found: u64 },
    Serde(String),
    /// Another memory of the project and category already says the same.
    MemoryDuplicateContent { id: i64 },
}

impl McStoreError {
    /// The text of the error.
    pub open spec fn message(self) -> Seq<char> {
        match self {
            McStoreError::Store(e) => "store: "@ + e.message(),
            McStoreError::CasConflict { expected, found } => "cas conflict: expected "@ + opt_count(
                expected,
            ) + ", found "@ + int_text(found as int),
            McStoreError::Serde(e) => "serde: "@ + e@,
            McStoreError::MemoryDuplicateContent { id } => "memory content already exists as ID "@
                + int_text(id as int),
        }
    }

    /// Writes the error out.
    pub fn text(&self) -> (r: String)
        ensures
            r@ == self.message(),
    {
        match self {
            McStoreError::Store(e) => {
                let mut r = owned("store: ");
                r.append(e.text());
                r
            },
            McStoreError::CasConflict { expected, found } => {
                let mut r = owned("cas conflict: expected ");
                r.append(&opt_count_text(*expected));
                r.append(", found ");
                r.append(&u64_text(*found));
                r
            },
            McStoreError::Serde(e) => {
                let mut r = owned("serde: ");
                r.append(e);
                r
            },
            McStoreError::MemoryDuplicateContent { id } => {
                let mut r = owned("memory content already exists as ID ");
                r.append(&i64_text(*id));
                r
            },
        }
    }
}

/// Failures of a historian publication.
#[allow(inconsistent_fields)]
#[derive(Debug, PartialEq, Eq)]
pub enum HistorianPublishError {
    Store(McStoreError),
    /// Another writer committed first, or the history was cut since the run fired.
    CasConflict { expected: Option<u64>, found: u64, reason: Option<String> },
    /// The producer is not the one that the session waits for.
    StateMismatch { expected: HistorianPublishPredicate, found: HistorianDurableState },
    /// The session waits for no publication.
    InvalidState { state: String },
}

/// What a [`HistorianPublishError`] holds.
#[allow(inconsistent_fields)]
#[verifier::ext_equal]
pub enum HistorianPublishErrorModel {
    Store(McStoreError),
    CasConflict { expected: Option<u64>, found: u64, reason: Option<Seq<char>> },
    StateMismatch { expected: HistorianPublishPredicateModel, found: HistorianDurableStateModel },
    InvalidState { state: Seq<char> },
}

impl View for HistorianPublishError {
    type V = HistorianPublishErrorModel;

    open spec fn view(&self) -> HistorianPublishErrorModel {
        match *self {
            HistorianPublishError::Store(e) => HistorianPublishErrorModel::Store(e),
            HistorianPublishError::CasConflict { expected, found, reason } =>
                HistorianPublishErrorModel::CasConflict {
                expected,
                found,
                reason: opt_view(reason),
            },
            HistorianPublishError::StateMismatch { expected, found } =>
                HistorianPublishErrorModel::StateMismatch { expected: expected@, found: found@ },
            HistorianPublishError::InvalidState { state } =>
                HistorianPublishErrorModel::InvalidState { state: state@ },
        }
    }
}

impl HistorianPublishErrorModel {
    /// The text of the error, for a found state that is shown as `shown`.
    pub open spec fn message(self, shown: Seq<char>) -> Seq<char> {
        match self {
            HistorianPublishErrorModel::Store(e) => "store: "@ + e.message(),
            HistorianPublishErrorModel::CasConflict { expected, found, reason } => {
                let conflict = "publish CAS conflict: expected "@ + opt_count(expected)
                    + ", found "@ + int_text(found as int);
                match reason {
                    Some(why) => conflict + ": "@ + why,
                    None => conflict,
                }
            },
            HistorianPublishErrorModel::StateMismatch { expected, found: _ } =>
                "historian publish state mismatch: expected seq "@ + int_text(
                expected.firing_seq as int,
            ) + " run "@ + expected.producer_run_id + " fingerprint "@
                + expected.chunk_fingerprint + ", found "@ + shown,
            HistorianPublishErrorModel::InvalidState { state } =>
                "historian publish invalid state: "@ + state,
        }
    }
}

impl HistorianPublishError {
    /// Writes the error out, for a found state that is shown as `shown`.
    pub fn text(&self, shown: &str) -> (r: String)
        ensures
            r@ == self@.message(shown@),
    {
        match self {
            HistorianPublishError::Store(e) => {
                let mut r = owned("store: ");
                r.append(&e.text());
                r
            },
            HistorianPublishError::CasConflict { expected, found, reason } => {
                let mut r = owned("publish CAS conflict: expected ");
                r.append(&opt_count_text(*expected));
                r.append(", found ");
                r.append(&u64_text(*found));
                match reason {
                    Some(why) => {
                        r.append(": ");
                        r.append(why);
                    },
                    None => {},
                }
                r
            },
            HistorianPublishError::StateMismatch { expected, found: _ } => {
                let mut r = owned("historian publish state mismatch: expected seq ");
                r.append(&u64_text(expected.firing_seq));
                r.append(" run ");
                r.append(&expected.producer_run_id);
                r.append(" fingerprint ");
                r.append(&expected.chunk_fingerprint);
                r.append(", found ");
                r.append(shown);
                r
            },
            HistorianPublishError::InvalidState { state } => {
                let mut r = owned("historian publish invalid state: ");
                r.append(state);
                r
            },
        }
    }
}

/// What is wrong with the compartments of an import.
#[derive(Debug, Clone, Copy, PartialEq, Eq, Structural)]
pub enum StateImportValidationError {
    SeqNotIncreasing { previous: i64, current: i64 },
    RangeInvalid { sequence: i64 },
    RangesOverlap { previous: i64, current: i64 },
    P1Empty { sequence: i64 },
    EndMessageIdInvalid { sequence: i64 },
}

impl StateImportValidationError {
    /// The stable code of the error.
    pub open spec fn error_code(self) -> Seq<char> {
        match self {
            StateImportValidationError::SeqNotIncreasing { .. } => "seq_not_increasing"@,
            StateImportValidationError::RangeInvalid { .. } => "range_invalid"@,
            StateImportValidationError::RangesOverlap { .. } => "ranges_overlap"@,
            StateImportValidationError::P1Empty { .. } => "p1_empty"@,
            StateImportValidationError::EndMessageIdInvalid { .. } => "end_message_id_invalid"@,
        }
    }

    /// The stable code of the error.
    pub fn code(&self) -> (r: &'static str)
        ensures
            r@ == self.error_code(),
    {
        match self {
            StateImportValidationError::SeqNotIncreasing { .. } => "seq_not_increasing",
            StateImportValidationError::RangeInvalid { .. } => "range_invalid",
            StateImportValidationError::RangesOverlap { .. } => "ranges_overlap",
            StateImportValidationError::P1Empty { .. } => "p1_empty",
            StateImportValidationError::EndMessageIdInvalid { .. } => "end_message_id_invalid",
        }
    }

    /// The text of the error.
    pub open spec fn message(self) -> Seq<char> {
        match self {
            StateImportValidationError::SeqNotIncreasing { previous, current } =>
                "compartment seq must be strictly increasing: "@ + int_text(current as int)
                    + " followed "@ + int_text(previous as int),
            StateImportValidationError::RangeInvalid { sequence } => "compartment "@ + int_text(
                sequence as int,
            ) + " has start_message after end_message"@,
            StateImportValidationError::RangesOverlap { previous, current } => "compartment "@
                + int_text(current as int) + " overlaps or precedes compartment "@ + int_text(
                previous as int,
            ),
            StateImportValidationError::P1Empty { sequence } => "compartment "@ + int_text(
                sequence as int,
            ) + " has an empty p1"@,
            StateImportValidationError::EndMessageIdInvalid { sequence } => "compartment "@
                + int_text(sequence as int) + " end_message_id is not a parseable mid#idx"@,
        }
    }

    /// Writes the error out.
    pub fn text(&self) -> (r: String)
        ensures
            r@ == self.message(),
    {
        match self {
            StateImportValidationError::SeqNotIncreasing { previous, current } => {
                let mut r = owned("compartment seq must be strictly increasing: ");
                r.append(&i64_text(*current));
                r.append(" followed ");
                r.append(&i64_text(*previous));
                r
            },
            StateImportValidationError::RangeInvalid { sequence } => {
                let mut r = owned("compartment ");
                r.append(&i64_text(*sequence));
                r.append(" has start_message after end_message");
                r
            },
            StateImportValidationError::RangesOverlap { previous, current } => {
                let mut r = owned("compartment ");
                r.append(&i64_text(*current));
                r.append(" overlaps or precedes compartment ");
                r.append(&i64_text(*previous));
                r
            },
            StateImportValidationError::P1Empty { sequence } => {
                let mut r = owned("compartment ");
                r.append(&i64_text(*sequence));
                r.append(" has an empty p1");
                r
            },
            StateImportValidationError::EndMessageIdInvalid { sequence } => {
                let mut r = owned("compartment ");
                r.append(&i64_text(*sequence));
                r.append(" end_message_id is not a parseable mid#idx");
                r
            },
        }
    }
}

/// Failures of a state import.
#[derive(Debug, PartialEq, Eq)]
pub enum StateImportError {
    Store(McStoreError),
    /// The session already owns durable state.
    SessionNotEmpty,
    Validation(StateImportValidationError),
}

impl StateImportError {
    /// The text of the error.
    pub open spec fn message(self) -> Seq<char> {
        match self {
            StateImportError::Store(e) => "store: "@ + e.message(),
            StateImportError::SessionNotEmpty => "session already has durable state"@,
            StateImportError::Validation(e) => e.error_code() + ": "@ + e.message(),
        }
    }

    /// Writes the error out.
    pub fn text(&self) -> (r: String)
        ensures
            r@ == self.message(),
    {
        match self {
            StateImportError::Store(e) => {
                let mut r = owned("store: ");
                r.append(&e.text());
                r
            },
            StateImportError::SessionNotEmpty => owned("session already has durable state"),
            StateImportError::Validation(e) => {
                let mut r = owned(e.code());
                r.append(": ");
                r.append(&e.text());
                r
            },
        }
    }
}

/// Failures of a shadow state sync.
#[derive(Debug, PartialEq, Eq)]
pub enum ShadowStateSyncError {
    Store(McStoreError),
    /// The request belongs to another shadow lineage.
    GenerationMismatch { expected: u64, found: u64 },
    /// The request is not the next one of its lineage.
    SeqMismatch { expected: u64, found: u64 },
    /// The declared boundary does not end the seeded compartments.
    InvalidSeedBoundary { declared: String, detail: String },
}

/// What a [`ShadowStateSyncError`] holds.
#[verifier::ext_equal]
pub enum ShadowStateSyncErrorModel {
    Store(McStoreError),
    GenerationMismatch { expected: u64, found: u64 },
    SeqMismatch { expected: u64, found: u64 },
    InvalidSeedBoundary { declared: Seq<char>, detail: Seq<char> },
}

impl View for ShadowStateSyncError {
    type V = ShadowStateSyncErrorModel;

    open spec fn view(&self) -> ShadowStateSyncErrorModel {
        match *self {
            ShadowStateSyncError::Store(e) => ShadowStateSyncErrorModel::Store(e),
            ShadowStateSyncError::GenerationMismatch { expected, found } =>
                ShadowStateSyncErrorModel::GenerationMismatch { expected, found },
            ShadowStateSyncError::SeqMismatch { expected, found } =>
                ShadowStateSyncErrorModel::SeqMismatch { expected, found },
            ShadowStateSyncError::InvalidSeedBoundary { declared, detail } =>
                ShadowStateSyncErrorModel::InvalidSeedBoundary {
                declared: declared@,
                detail: detail@,
            },
        }
    }
}

impl ShadowStateSyncError {
    /// The text of the error.
    pub open spec fn message(self) -> Seq<char> {
        match self {
            ShadowStateSyncError::Store(e) => "store: "@ + e.message(),
            ShadowStateSyncError::GenerationMismatch { expected, found } =>
                "shadow generation mismatch: expected "@ + int_text(expected as int) + ", found "@
                    + int_text(found as int),
            ShadowStateSyncError::SeqMismatch { expected, found } =>
                "shadow seq mismatch: expected "@ + int_text(expected as int) + ", found "@
                    + int_text(found as int),
            ShadowStateSyncError::InvalidSeedBoundary { declared, detail } =>
                "invalid seed boundary "@ + quoted(declared@) + ": "@ + detail@,
        }
    }

    /// Writes the error out.
    pub fn text(&self) -> (r: String)
        ensures
            r@ == self.message(),
    {
        match self {
            ShadowStateSyncError::Store(e) => {
                let mut r = owned("store: ");
                r.append(&e.text());
                r
            },
            ShadowStateSyncError::GenerationMismatch { expected, found } => {
                let mut r = owned("shadow generation mismatch: expected ");
                r.append(&u64_text(*expected));
                r.append(", found ");
                r.append(&u64_text(*found));
                r
            },
            ShadowStateSyncError::SeqMismatch { expected, found } => {
                let mut r = owned("shadow seq mismatch: expected ");
                r.append(&u64_text(*expected));
                r.append(", found ");
                r.append(&u64_text(*found));
                r
            },
            ShadowStateSyncError::InvalidSeedBoundary { declared, detail } => {
                let mut r = owned("invalid seed boundary ");
                r.append(&quoted_text(declared));
                r.append(": ");
                r.append(detail);
                r
            },
        }
    }
}

} // verus!
