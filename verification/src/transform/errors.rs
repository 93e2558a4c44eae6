//! The errors of a transform pass. A pass that fails with one leaves the store as it was.

use vstd::prelude::*;

use crate::store::errors::McStoreError;
use crate::text::owned;

verus! {

/// Why a pass failed.
#[derive(Debug, PartialEq, Eq)]
pub enum TransformError {
    Store(McStoreError),
    /// The ordinals of the conversation do not increase strictly.
    OrdinalViolation,
    /// A block of the conversation bears a reserved id.
    ReservedId,
    /// The frozen units have no known shape.
    UnknownShape(String),
    /// A frozen reduction was decided anew with other bytes.
    ReductionConflict,
    /// A message is covered by no compartment.
    CoverageGap(String),
    /// The conversation holds a block that cannot be flattened.
    CkWire(String),
    /// Two blocks have the same id.
    DuplicateBlockId(String),
    /// The blocks of a message changed since it was first seen.
    IdentityDrift(String),
    /// The message that the todo pair follows is not in the tail.
    SyntheticTodoAnchorMissing(String),
    /// A frozen reduction names a block that its message no longer has.
    FrozenRedTargetVanish(String),
    /// The boundary that was minted is not in the conversation.
    BoundaryNotPresent(String),
}

/// What a [`TransformError`] holds.
#[verifier::ext_equal]
pub enum TransformErrorModel {
    Store(McStoreError),
    OrdinalViolation,
    ReservedId,
    UnknownShape(Seq<char>),
    ReductionConflict,
    CoverageGap(Seq<char>),
    CkWire(Seq<char>),
    DuplicateBlockId(Seq<char>),
    IdentityDrift(Seq<char>),
    SyntheticTodoAnchorMissing(Seq<char>),
    FrozenRedTargetVanish(Seq<char>),
    BoundaryNotPresent(Seq<char>),
}

impl View for TransformError {
    type V = TransformErrorModel;

    open spec fn view(&self) -> TransformErrorModel {
        match *self {
            TransformError::Store(e) => TransformErrorModel::Store(e),
            TransformError::OrdinalViolation => TransformErrorModel::OrdinalViolation,
            TransformError::ReservedId => TransformErrorModel::ReservedId,
            TransformError::UnknownShape(t) => TransformErrorModel::UnknownShape(t@),
            TransformError::ReductionConflict => TransformErrorModel::ReductionConflict,
            TransformError::CoverageGap(t) => TransformErrorModel::CoverageGap(t@),
            TransformError::CkWire(t) => TransformErrorModel::CkWire(t@),
            TransformError::DuplicateBlockId(t) => TransformErrorModel::DuplicateBlockId(t@),
            TransformError::IdentityDrift(t) => TransformErrorModel::IdentityDrift(t@),
            TransformError::SyntheticTodoAnchorMissing(t) =>
                TransformErrorModel::SyntheticTodoAnchorMissing(t@),
            TransformError::FrozenRedTargetVanish(t) =>
                TransformErrorModel::FrozenRedTargetVanish(t@),
            TransformError::BoundaryNotPresent(t) => TransformErrorModel::BoundaryNotPresent(t@),
        }
    }
}

impl TransformErrorModel {
    /// The text of the error.
    pub open spec fn message(self) -> Seq<char> {
        match self {
            TransformErrorModel::Store(e) => "store: "@ + e.message(),
            TransformErrorModel::OrdinalViolation =>
                "live-source ordinals not strictly increasing"@,
            TransformErrorModel::ReservedId => "non-synthetic item used a reserved mc_* id"@,
            TransformErrorModel::UnknownShape(t) => "unknown frozen-set shape: "@ + t,
            TransformErrorModel::ReductionConflict =>
                "decider re-supplied an already-frozen reduction target with different bytes"@,
            TransformErrorModel::CoverageGap(t) => t,
            TransformErrorModel::CkWire(t) => "ck wire: "@ + t,
            TransformErrorModel::DuplicateBlockId(t) => "duplicate flattened block id: "@ + t,
            TransformErrorModel::IdentityDrift(t) => "CK message block identity drift for mid "@
                + t,
            TransformErrorModel::SyntheticTodoAnchorMissing(t) => "synthetic todo anchor mid "@ + t
                + " is missing from the live tail"@,
            TransformErrorModel::FrozenRedTargetVanish(t) =>
                "frozen reduction target vanished while its message is live: "@ + t,
            TransformErrorModel::BoundaryNotPresent(t) => "minted boundary not present: "@ + t,
        }
    }
}

fn joined(a: &str, b: &str) -> (r: String)
    ensures
        r@ == a@ + b@,
{
    let mut r = owned(a);
    r.append(b);
    r
}

impl TransformError {
    /// Writes the error out.
    pub fn text(&self) -> (r: String)
        ensures
            r@ == self@.message(),
    {
        match self {
            TransformError::Store(e) => joined("store: ", &e.text()),
            TransformError::OrdinalViolation => owned(
                "live-source ordinals not strictly increasing",
            ),
            TransformError::ReservedId => owned("non-synthetic item used a reserved mc_* id"),
            TransformError::UnknownShape(t) => joined("unknown frozen-set shape: ", t),
            TransformError::ReductionConflict => owned(
                "decider re-supplied an already-frozen reduction target with different bytes",
            ),
            TransformError::CoverageGap(t) => t.clone(),
            TransformError::CkWire(t) => joined("ck wire: ", t),
            TransformError::DuplicateBlockId(t) => joined("duplicate flattened block id: ", t),
            TransformError::IdentityDrift(t) => joined(
                "CK message block identity drift for mid ",
                t,
            ),
            TransformError::SyntheticTodoAnchorMissing(t) => {
                let mut r = joined("synthetic todo anchor mid ", t);
                r.append(" is missing from the live tail");
                r
            },
            TransformError::FrozenRedTargetVanish(t) => joined(
                "frozen reduction target vanished while its message is live: ",
                t,
            ),
            TransformError::BoundaryNotPresent(t) => joined("minted boundary not present: ", t),
        }
    }
}

/// How often a pass starts over after another writer committed first.
pub const MAX_CAS_RETRIES: u32 = 8;

/// Whether a failed pass starts over.
pub open spec fn retried(e: TransformErrorModel, attempt: u32) -> bool {
    &&& e matches TransformErrorModel::Store(inner)
    &&& inner is CasConflict
    &&& attempt < MAX_CAS_RETRIES
}

/// Tells whether a failed pass starts over.
pub fn starts_over(e: &TransformError, attempt: u32) -> (r: bool)
    ensures
        r == retried(e@, attempt),
{
    match e {
        TransformError::Store(McStoreError::CasConflict { expected: _, found: _ }) => attempt
            < MAX_CAS_RETRIES,
        _ => false,
    }
}

} // verus!
