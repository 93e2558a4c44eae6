//! Compartments: the summarised history of a session.

use vstd::prelude::*;

use crate::rows::{
    slice_dup, append_session, first_where_first, first_where_is, group_views, has_session,
    keyed_all, of_session, put_where, remove_session, row_of, session_rows, sort_rows, sorted,
    take_all, take_next, views, without_session, find_session, Keyed, KeyedModel, Row, RowOrder,
};
use crate::store::drops::commands_kept;
use crate::store::errors::{McStoreError, StateImportValidationError, StoreError};
use crate::store::integrity::{appended_kept, replaced_kept, well_formed};
use crate::store::records::{
    HistorianAssemblySnapshot, StoredCompartment, StoredCompartmentModel,
};
use crate::store::{McStore, McStoreModel};
use crate::text::{
    blank, chars_of, i64_text, int_text, is_blank, owned, parse_u64, parsed_u64, quoted,
    quoted_text, same_text, u64_text,
};

verus! {

// --- flat block ids -------------------------------------------------------------------

/// The place of the last `#`.
pub open spec fn last_hash(s: Seq<char>) -> Option<int>
    decreases s.len(),
{
    if s.len() == 0 {
        None
    } else if s.last() == '#' {
        Some(s.len() - 1)
    } else {
        last_hash(s.drop_last())
    }
}

/// The message id and block index of a flat block id `<mid>#<index>`, whose message id is
/// not empty and holds no `#`.
pub open spec fn flat_block_id(id: Seq<char>) -> Option<(Seq<char>, u64)> {
    match last_hash(id) {
        None => None,
        Some(p) => {
            let mid = id.take(p);
            match parsed_u64(id.skip(p + 1)) {
                Some(index) if mid.len() > 0 && !mid.contains('#') => Some((mid, index)),
                _ => None,
            }
        },
    }
}

/// Splits a flat block id.
pub fn split_flat_block_id(id: &str) -> (r: Option<(&str, u64)>)
    ensures
        match r {
            Some((mid, index)) => flat_block_id(id@) == Some((mid@, index)),
            None => flat_block_id(id@) is None,
        },
{
    let cs = chars_of(id);
    let mut p: usize = cs.len();
    assert(id@.take(cs.len() as int) =~= id@);
    while p > 0 && cs[p - 1] != '#'
        invariant
            p <= cs.len(),
            cs@ == id@,
            last_hash(id@) == last_hash(id@.take(p as int)),
        decreases p,
    {
        assert(id@.take(p as int).drop_last() =~= id@.take(p - 1));
        p -= 1;
    }
    if p == 0 {
        return None;
    }
    let at: usize = p - 1;
    assert(last_hash(id@) == Some(at as int));
    if at == 0 {
        return None;
    }
    let mut k: usize = 0;
    while k < at
        invariant
            k <= at < cs.len(),
            cs@ == id@,
            last_hash(id@) == Some(at as int),
            forall|j: int| 0 <= j < k ==> id@[j] != '#',
        decreases at - k,
    {
        if cs[k] == '#' {
            assert(id@.take(at as int)[k as int] == '#');
            return None;
        }
        k += 1;
    }
    let mid = id.substring_char(0, at);
    assert(mid@ =~= id@.take(at as int));
    assert(!id@.take(at as int).contains('#'));
    let tail = id.substring_char(at + 1, cs.len());
    assert(tail@ =~= id@.skip(at + 1));
    match parse_u64(tail) {
        Some(index) => Some((mid, index)),
        None => None,
    }
}

// --- import validation ----------------------------------------------------------------

/// What is wrong with the compartment at `i` of an import, if anything.
pub open spec fn import_fault(cs: Seq<StoredCompartmentModel>, i: int) -> Option<
    StateImportValidationError,
> {
    let c = cs[i];
    if c.start_message > c.end_message {
        Some(StateImportValidationError::RangeInvalid { sequence: c.sequence })
    } else if c.p1 is None || blank(c.p1->0) {
        Some(StateImportValidationError::P1Empty { sequence: c.sequence })
    } else if flat_block_id(c.end_message_id) is None {
        Some(StateImportValidationError::EndMessageIdInvalid { sequence: c.sequence })
    } else if i > 0 && c.sequence <= cs[i - 1].sequence {
        Some(
            StateImportValidationError::SeqNotIncreasing {
                previous: cs[i - 1].sequence,
                current: c.sequence,
            },
        )
    } else if i > 0 && c.start_message <= cs[i - 1].end_message {
        Some(
            StateImportValidationError::RangesOverlap {
                previous: cs[i - 1].sequence,
                current: c.sequence,
            },
        )
    } else {
        None
    }
}

/// No compartment of the import is at fault.
pub open spec fn importable(cs: Seq<StoredCompartmentModel>) -> bool {
    forall|i: int| 0 <= i < cs.len() ==> #[trigger] import_fault(cs, i) is None
}

/// `e` is the first fault of the import.
pub open spec fn first_import_fault(
    cs: Seq<StoredCompartmentModel>,
    e: StateImportValidationError,
) -> bool {
    exists|i: int|
        0 <= i < cs.len() && #[trigger] import_fault(cs, i) == Some(e) && forall|j: int|
            0 <= j < i ==> #[trigger] import_fault(cs, j) is None
}

/// An import has at most one first fault, and none where it is importable.
pub proof fn one_first_import_fault(
    cs: Seq<StoredCompartmentModel>,
    a: StateImportValidationError,
    b: StateImportValidationError,
)
    requires
        first_import_fault(cs, a),
    ensures
        !importable(cs),
        first_import_fault(cs, b) ==> a == b,
{
    let i = choose|i: int|
        0 <= i < cs.len() && #[trigger] import_fault(cs, i) == Some(a) && forall|j: int|
            0 <= j < i ==> #[trigger] import_fault(cs, j) is None;
    if first_import_fault(cs, b) {
        let k = choose|k: int|
            0 <= k < cs.len() && #[trigger] import_fault(cs, k) == Some(b) && forall|j: int|
                0 <= j < k ==> #[trigger] import_fault(cs, j) is None;
        if i < k {
            assert(import_fault(cs, i) is None);
        } else if k < i {
            assert(import_fault(cs, k) is None);
        }
    }
}

/// Checks the compartments of an import; the first fault is reported.
pub fn validate_state_import_compartments(compartments: &[StoredCompartment]) -> (r: Result<
    (),
    StateImportValidationError,
>)
    ensures
        match r {
            Ok(_) => importable(views(compartments@)),
            Err(e) => first_import_fault(views(compartments@), e),
        },
{
    broadcast use group_views;

    let ghost cs = views(compartments@);
    let mut i: usize = 0;
    while i < compartments.len()
        invariant
            i <= compartments.len(),
            cs == views(compartments@),
            forall|j: int| 0 <= j < i ==> #[trigger] import_fault(cs, j) is None,
        decreases compartments.len() - i,
    {
        let c = &compartments[i];
        assert(cs[i as int] == c@);
        let p1_missing = match &c.p1 {
            Some(p1) => is_blank(p1),
            None => true,
        };
        let ghost fault = import_fault(cs, i as int);
        if c.start_message > c.end_message {
            assert(fault is Some);
            return Err(StateImportValidationError::RangeInvalid { sequence: c.sequence });
        }
        if p1_missing {
            assert(fault is Some);
            return Err(StateImportValidationError::P1Empty { sequence: c.sequence });
        }
        if split_flat_block_id(&c.end_message_id).is_none() {
            assert(fault is Some);
            return Err(StateImportValidationError::EndMessageIdInvalid { sequence: c.sequence });
        }
        if i > 0 {
            let previous = &compartments[i - 1];
            assert(cs[i - 1] == previous@);
            if c.sequence <= previous.sequence {
                assert(fault is Some);
                return Err(
                    StateImportValidationError::SeqNotIncreasing {
                        previous: previous.sequence,
                        current: c.sequence,
                    },
                );
            }
            if c.start_message <= previous.end_message {
                assert(fault is Some);
                return Err(
                    StateImportValidationError::RangesOverlap {
                        previous: previous.sequence,
                        current: c.sequence,
                    },
                );
            }
        }
        i += 1;
    }
    Ok(())
}

/// An accepted import is strictly increasing, and no two of its ranges overlap.
pub proof fn importable_is_a_chain(cs: Seq<StoredCompartmentModel>, i: int, j: int)
    requires
        importable(cs),
        0 <= i < j < cs.len(),
    ensures
        cs[i].sequence < cs[j].sequence,
        cs[i].start_message <= cs[i].end_message < cs[j].start_message <= cs[j].end_message,
    decreases j - i,
{
    assert(import_fault(cs, j) is None);
    assert(import_fault(cs, i) is None);
    if i < j - 1 {
        importable_is_a_chain(cs, i, j - 1);
    }
}

// --- the order of compartments --------------------------------------------------------

/// The order of compartments: oldest first.
pub struct SequenceOrder;

impl RowOrder<StoredCompartment> for SequenceOrder {
    open spec fn le(a: StoredCompartmentModel, b: StoredCompartmentModel) -> bool {
        a.sequence <= b.sequence
    }

    proof fn le_total(a: StoredCompartmentModel, b: StoredCompartmentModel) {
    }

    proof fn le_transitive(
        a: StoredCompartmentModel,
        b: StoredCompartmentModel,
        c: StoredCompartmentModel,
    ) {
    }

    fn at_most(a: &StoredCompartment, b: &StoredCompartment) -> (r: bool) {
        a.sequence <= b.sequence
    }
}

/// The largest sequence of a session, zero where there is none.
pub open spec fn max_sequence(rows: Seq<StoredCompartmentModel>) -> i64
    decreases rows.len(),
{
    if rows.len() == 0 {
        0
    } else if rows.len() == 1 {
        rows[0].sequence
    } else {
        let rest = max_sequence(rows.drop_last());
        if rest >= rows.last().sequence {
            rest
        } else {
            rows.last().sequence
        }
    }
}

/// The largest sequence is one that occurs, and none is larger.
pub proof fn max_sequence_is_largest(rows: Seq<StoredCompartmentModel>, i: int)
    requires
        0 <= i < rows.len(),
    ensures
        rows[i].sequence <= max_sequence(rows),
    decreases rows.len(),
{
    if rows.len() > 1 && i < rows.len() - 1 {
        assert(rows.drop_last()[i] == rows[i]);
        max_sequence_is_largest(rows.drop_last(), i);
    }
}

/// The compartments as appended behind sequence `last`.
pub open spec fn renumbered(cs: Seq<StoredCompartmentModel>, last: i64) -> Seq<
    StoredCompartmentModel,
> {
    Seq::new(
        cs.len(),
        |i: int| StoredCompartmentModel { sequence: (last + 1 + i) as i64, ..cs[i] },
    )
}

/// Whether sequences are left for `n` more compartments behind `last`.
pub open spec fn sequences_left(last: i64, n: nat) -> bool {
    last + n <= i64::MAX
}

/// No two compartments share a sequence.
pub open spec fn distinct_sequences(cs: Seq<StoredCompartmentModel>) -> bool {
    forall|i: int, j: int|
        0 <= i < j < cs.len() ==> (#[trigger] cs[i]).sequence != (#[trigger] cs[j]).sequence
}

/// Appended compartments come behind all that were there, without gaps and in order.
pub proof fn appended_sequences_are_new(
    rows: Seq<StoredCompartmentModel>,
    cs: Seq<StoredCompartmentModel>,
    i: int,
    k: int,
)
    requires
        sequences_left(max_sequence(rows), cs.len()),
        0 <= i < rows.len(),
        0 <= k < cs.len(),
    ensures
        rows[i].sequence < renumbered(cs, max_sequence(rows))[k].sequence,
        k > 0 ==> renumbered(cs, max_sequence(rows))[k].sequence == renumbered(
            cs,
            max_sequence(rows),
        )[k - 1].sequence + 1,
{
    max_sequence_is_largest(rows, i);
}

pub(crate) fn largest_sequence(rows: &Vec<StoredCompartment>) -> (r: i64)
    ensures
        r == max_sequence(views(rows@)),
{
    broadcast use group_views;

    if rows.len() == 0 {
        return 0;
    }
    let mut largest: i64 = rows[0].sequence;
    let mut i: usize = 1;
    assert(views(rows@).take(1)[0] == views(rows@)[0]);
    while i < rows.len()
        invariant
            1 <= i <= rows.len(),
            largest == max_sequence(views(rows@).take(i as int)),
        decreases rows.len() - i,
    {
        proof {
            take_next(views(rows@), i as int);
        }
        if rows[i].sequence > largest {
            largest = rows[i].sequence;
        }
        i += 1;
    }
    proof {
        take_all(views(rows@));
    }
    largest
}

pub(crate) fn renumber(cs: &[StoredCompartment], last: i64) -> (r: Vec<StoredCompartment>)
    requires
        sequences_left(last, cs@.len()),
    ensures
        views(r@) == renumbered(views(cs@), last),
{
    broadcast use group_views;

    let ghost given = views(cs@);
    let ghost wanted = renumbered(given, last);
    let mut r: Vec<StoredCompartment> = Vec::new();
    let mut i: usize = 0;
    while i < cs.len()
        invariant
            i <= cs.len(),
            sequences_left(last, cs@.len()),
            given == views(cs@),
            wanted == renumbered(given, last),
            views(r@) == wanted.take(i as int),
        decreases cs.len() - i,
    {
        proof {
            take_next(wanted, i as int);
        }
        let mut c = cs[i].dup();
        c.sequence = ((last as i128) + 1 + (i as i128)) as i64;
        assert(c@ == wanted[i as int]);
        r.push(c);
        i += 1;
    }
    proof {
        take_all(wanted);
    }
    r
}

fn sequences_distinct(cs: &[StoredCompartment]) -> (r: bool)
    ensures
        r == distinct_sequences(views(cs@)),
{
    let mut i: usize = 0;
    while i < cs.len()
        invariant
            i <= cs.len(),
            forall|a: int, b: int|
                0 <= a < b < i ==> (#[trigger] views(cs@)[a]).sequence != (#[trigger] views(
                    cs@,
                )[b]).sequence,
        decreases cs.len() - i,
    {
        let mut k: usize = 0;
        while k < i
            invariant
                k <= i < cs.len(),
                forall|a: int| 0 <= a < k ==> (#[trigger] views(cs@)[a]).sequence != cs@[i as int].sequence,
            decreases i - k,
        {
            if cs[k].sequence == cs[i].sequence {
                assert(views(cs@)[k as int].sequence == views(cs@)[i as int].sequence);
                return false;
            }
            assert(views(cs@)[k as int] == cs@[k as int]@);
            k += 1;
        }
        assert(views(cs@)[i as int] == cs@[i as int]@);
        i += 1;
    }
    true
}

// --- seeded boundaries ----------------------------------------------------------------

/// The compartments by sequence; equal sequences keep their order.
pub open spec fn by_sequence(cs: Seq<StoredCompartmentModel>) -> Seq<StoredCompartmentModel> {
    sorted::<StoredCompartment, SequenceOrder>(cs)
}

/// What is wrong with two neighbouring seeded compartments, if anything.
pub open spec fn seed_pair_fault(
    a: StoredCompartmentModel,
    b: StoredCompartmentModel,
) -> Option<Seq<char>> {
    if a.sequence == b.sequence {
        Some("seeded compartment sequences must be unique"@)
    } else if b.start_message <= a.end_message {
        Some(
            "seeded compartment ranges overlap at ordinals "@ + int_text(a.end_message as int)
                + " and "@ + int_text(b.start_message as int),
        )
    } else {
        None
    }
}

/// The first fault between neighbours.
pub open spec fn seed_chain_fault(s: Seq<StoredCompartmentModel>) -> Option<Seq<char>>
    decreases s.len(),
{
    if s.len() < 2 {
        None
    } else {
        match seed_chain_fault(s.drop_last()) {
            Some(e) => Some(e),
            None => seed_pair_fault(s[s.len() - 2], s[s.len() - 1]),
        }
    }
}

/// Whether every seeded range is non-negative and ordered.
pub open spec fn seed_ranges_ordered(s: Seq<StoredCompartmentModel>) -> bool {
    forall|i: int|
        0 <= i < s.len() ==> 0 <= (#[trigger] s[i]).start_message <= s[i].end_message
}

/// What a seed's declared boundary amounts to.
pub struct SeedBoundaryModel {
    pub boundary_id: Seq<char>,
    pub coverage_start_ordinal: u64,
    pub coverage_end_ordinal: u64,
    pub max_sequence: i64,
}

/// The boundary that a seed declares, or why it cannot be adopted.
pub open spec fn seed_boundary(declared: Seq<char>, cs: Seq<StoredCompartmentModel>) -> Result<
    SeedBoundaryModel,
    Seq<char>,
> {
    let ordered = by_sequence(cs);
    match flat_block_id(declared) {
        None => Err("declared identity must be a parseable <mid>#<index> flat id"@),
        Some((mid, index)) => if ordered.len() == 0 {
            Err("a boundary cannot be adopted without seeded compartments"@)
        } else if !seed_ranges_ordered(ordered) {
            Err("seeded compartment ordinal ranges must be non-negative and ordered"@)
        } else {
            match (seed_chain_fault(ordered), flat_block_id(ordered.last().end_message_id)) {
                (Some(e), _) => Err(e),
                (None, None) => Err(
                    "the highest-sequence compartment must carry a parseable flat end_message_id"@,
                ),
                (None, Some((tail_mid, tail_index))) => if mid != tail_mid {
                    Err(
                        "declared message "@ + quoted(mid)
                            + " did not match tail compartment message "@ + quoted(tail_mid),
                    )
                } else if index != tail_index {
                    Err(
                        "declared block index "@ + int_text(index as int)
                            + " did not match tail compartment end-block index "@ + int_text(
                            tail_index as int,
                        ),
                    )
                } else {
                    Ok(
                        SeedBoundaryModel {
                            boundary_id: ordered.last().end_message_id,
                            coverage_start_ordinal: ordered[0].start_message as u64,
                            coverage_end_ordinal: ordered.last().end_message as u64,
                            max_sequence: ordered.last().sequence,
                        },
                    )
                },
            }
        },
    }
}

/// A boundary that a seed may adopt.
#[derive(Debug, PartialEq, Eq)]
pub struct ValidatedSeedBoundary {
    pub boundary_id: String,
    pub coverage_start_ordinal: u64,
    pub coverage_end_ordinal: u64,
    pub max_sequence: i64,
}

impl View for ValidatedSeedBoundary {
    type V = SeedBoundaryModel;

    open spec fn view(&self) -> SeedBoundaryModel {
        SeedBoundaryModel {
            boundary_id: self.boundary_id@,
            coverage_start_ordinal: self.coverage_start_ordinal,
            coverage_end_ordinal: self.coverage_end_ordinal,
            max_sequence: self.max_sequence,
        }
    }
}

fn chain_fault(ordered: &Vec<StoredCompartment>) -> (r: Option<String>)
    ensures
        match r {
            Some(e) => seed_chain_fault(views(ordered@)) == Some(e@),
            None => seed_chain_fault(views(ordered@)) is None,
        },
{
    broadcast use group_views;

    let ghost s = views(ordered@);
    let mut i: usize = 1;
    while i < ordered.len()
        invariant
            1 <= i,
            i <= ordered.len() || ordered.len() == 0,
            s == views(ordered@),
            ordered.len() > 0 ==> seed_chain_fault(s.take(i as int)) is None,
        decreases ordered.len() - i,
    {
        proof {
            take_next(s, i as int);
            assert(s.take(i + 1)[i - 1] == s[i - 1]);
            assert(s[i - 1] == ordered@[i - 1]@);
            assert(s[i as int] == ordered@[i as int]@);
        }
        let a = &ordered[i - 1];
        let b = &ordered[i];
        if a.sequence == b.sequence {
            proof {
                chain_fault_prefix(s, i + 1);
            }
            return Some(owned("seeded compartment sequences must be unique"));
        }
        if b.start_message <= a.end_message {
            let mut e = owned("seeded compartment ranges overlap at ordinals ");
            e.append(&i64_text(a.end_message));
            e.append(" and ");
            e.append(&i64_text(b.start_message));
            proof {
                chain_fault_prefix(s, i + 1);
            }
            return Some(e);
        }
        i += 1;
    }
    proof {
        take_all(s);
    }
    None
}

proof fn chain_fault_prefix(s: Seq<StoredCompartmentModel>, n: int)
    requires
        0 <= n <= s.len(),
        seed_chain_fault(s.take(n)) is Some,
    ensures
        seed_chain_fault(s) == seed_chain_fault(s.take(n)),
    decreases s.len() - n,
{
    if n < s.len() {
        take_next(s, n);
        chain_fault_prefix(s, n + 1);
    } else {
        take_all(s);
    }
}

fn ranges_ordered(ordered: &Vec<StoredCompartment>) -> (r: bool)
    ensures
        r == seed_ranges_ordered(views(ordered@)),
{
    let mut i: usize = 0;
    while i < ordered.len()
        invariant
            i <= ordered.len(),
            forall|j: int|
                0 <= j < i ==> 0 <= (#[trigger] views(ordered@)[j]).start_message <= views(
                    ordered@,
                )[j].end_message,
        decreases ordered.len() - i,
    {
        assert(views(ordered@)[i as int] == ordered@[i as int]@);
        if ordered[i].start_message < 0 || ordered[i].end_message < ordered[i].start_message {
            return false;
        }
        i += 1;
    }
    true
}

/// Checks the boundary that a seed declares against its compartments.
pub fn validated_seed_boundary(declared: &str, compartments: &[StoredCompartment]) -> (r: Result<
    ValidatedSeedBoundary,
    String,
>)
    ensures
        match r {
            Ok(b) => seed_boundary(declared@, views(compartments@)) == Ok::<_, Seq<char>>(b@),
            Err(e) => seed_boundary(declared@, views(compartments@)) == Err::<
                SeedBoundaryModel,
                _,
            >(e@),
        },
{
    let (mid, index) = match split_flat_block_id(declared) {
        Some(parts) => parts,
        None => {
            return Err(owned("declared identity must be a parseable <mid>#<index> flat id"));
        },
    };
    let ordered = sort_rows::<StoredCompartment, SequenceOrder>(slice_dup(compartments));
    if ordered.len() == 0 {
        return Err(owned("a boundary cannot be adopted without seeded compartments"));
    }
    let ghost s = views(ordered@);
    assert(s.last() == ordered@[ordered@.len() - 1]@);
    assert(s[0] == ordered@[0]@);
    if !ranges_ordered(&ordered) {
        return Err(owned("seeded compartment ordinal ranges must be non-negative and ordered"));
    }
    if let Some(e) = chain_fault(&ordered) {
        return Err(e);
    }
    let tail = &ordered[ordered.len() - 1];
    let (tail_mid, tail_index) = match split_flat_block_id(&tail.end_message_id) {
        Some(parts) => parts,
        None => {
            return Err(
                owned("the highest-sequence compartment must carry a parseable flat end_message_id"),
            );
        },
    };
    if !same_text(mid, tail_mid) {
        let mut e = owned("declared message ");
        e.append(&quoted_text(mid));
        e.append(" did not match tail compartment message ");
        e.append(&quoted_text(tail_mid));
        return Err(e);
    }
    if index != tail_index {
        let mut e = owned("declared block index ");
        e.append(&u64_text(index));
        e.append(" did not match tail compartment end-block index ");
        e.append(&u64_text(tail_index));
        return Err(e);
    }
    Ok(
        ValidatedSeedBoundary {
            boundary_id: tail.end_message_id.clone(),
            coverage_start_ordinal: ordered[0].start_message as u64,
            coverage_end_ordinal: tail.end_message as u64,
            max_sequence: tail.sequence,
        },
    )
}

// --- operations -----------------------------------------------------------------------

/// Accepts the row of one session and sequence.
pub open spec fn at_sequence(session: Seq<char>, sequence: i64) -> spec_fn(
    KeyedModel<StoredCompartmentModel>,
) -> bool {
    |k: KeyedModel<StoredCompartmentModel>| k.session == session && k.row.sequence == sequence
}

/// The table after the compartments were put, each in place of the one with its sequence.
pub open spec fn with_upserted(
    table: Seq<KeyedModel<StoredCompartmentModel>>,
    session: Seq<char>,
    cs: Seq<StoredCompartmentModel>,
) -> Seq<KeyedModel<StoredCompartmentModel>>
    decreases cs.len(),
{
    if cs.len() == 0 {
        table
    } else {
        put_where(
            with_upserted(table, session, cs.drop_last()),
            at_sequence(session, cs.last().sequence),
            KeyedModel { session, row: cs.last() },
        )
    }
}

pub(crate) fn upsert_compartments(
    table: &mut Vec<Keyed<StoredCompartment>>,
    session: &str,
    cs: &[StoredCompartment],
)
    ensures
        views(final(table)@) == with_upserted(views(old(table)@), session@, views(cs@)),
{
    broadcast use group_views;

    let ghost given = views(cs@);
    let mut i: usize = 0;
    while i < cs.len()
        invariant
            i <= cs.len(),
            given == views(cs@),
            views(table@) == with_upserted(views(old(table)@), session@, given.take(i as int)),
        decreases cs.len() - i,
    {
        proof {
            take_next(given, i as int);
        }
        upsert_compartment(table, session, &cs[i]);
        i += 1;
    }
    proof {
        take_all(given);
    }
}

fn upsert_compartment(
    table: &mut Vec<Keyed<StoredCompartment>>,
    session: &str,
    c: &StoredCompartment,
)
    ensures
        views(final(table)@) == put_where(
            views(old(table)@),
            at_sequence(session@, c@.sequence),
            KeyedModel { session: session@, row: c@ },
        ),
{
    broadcast use group_views;

    let ghost p = at_sequence(session@, c@.sequence);
    let mut i: usize = 0;
    while i < table.len()
        invariant
            i <= table.len(),
            table@ == old(table)@,
            p == at_sequence(session@, c@.sequence),
            forall|j: int| 0 <= j < i ==> !p(#[trigger] views(table@)[j]),
        decreases table.len() - i,
    {
        assert(views(table@)[i as int] == table@[i as int]@);
        if same_text(&table[i].session_id, session) && table[i].row.sequence == c.sequence {
            proof {
                first_where_is(views(table@), p, i as int);
            }
            table.set(i, Keyed { session_id: session.to_owned(), row: c.dup() });
            return;
        }
        i += 1;
    }
    proof {
        first_where_first(views(table@), p);
    }
    table.push(Keyed { session_id: session.to_owned(), row: c.dup() });
}

/// Replaced compartments read back: the session has just the given ones, and every other
/// session what it had.
pub proof fn replaced_compartments_read_back(
    table: Seq<KeyedModel<StoredCompartmentModel>>,
    session: Seq<char>,
    cs: Seq<StoredCompartmentModel>,
    other: Seq<char>,
)
    ensures
        of_session(without_session(table, session) + keyed_all(session, cs), session) == cs,
        other != session ==> of_session(
            without_session(table, session) + keyed_all(session, cs),
            other,
        ) == of_session(table, other),
{
    let left = without_session(table, session);
    let given = keyed_all(session, cs);
    crate::rows::of_session_concat(left, given, session);
    crate::rows::of_session_without(table, session, session);
    crate::rows::of_session_keyed_all(session, cs, session);
    assert(Seq::<StoredCompartmentModel>::empty() + cs =~= cs);
    crate::rows::of_session_concat(left, given, other);
    crate::rows::of_session_without(table, session, other);
    crate::rows::of_session_keyed_all(session, cs, other);
    assert(of_session(table, other) + Seq::<StoredCompartmentModel>::empty() =~= of_session(
        table,
        other,
    ));
}

impl McStore {
    /// Reads the compartments of a session, oldest first.
    pub fn load_compartments(&self, session_id: &str) -> (r: Vec<StoredCompartment>)
        ensures
            views(r@) == by_sequence(of_session(self@.compartments, session_id@)),
    {
        sort_rows::<StoredCompartment, SequenceOrder>(session_rows(&self.compartments, session_id))
    }

    /// Reads the compartments of a session together with its revert epoch.
    pub fn load_historian_assembly_snapshot(&self, session_id: &str) -> (r: HistorianAssemblySnapshot)
        ensures
            r@.compartments == by_sequence(of_session(self@.compartments, session_id@)),
            r.revert_epoch == (match row_of(self@.cache, session_id@) {
                Some(row) => row.meta.revert_epoch,
                None => 0,
            }),
    {
        let revert_epoch: u64 = match find_session(&self.cache, session_id) {
            Some(i) => self.cache[i].row.meta.revert_epoch,
            None => 0,
        };
        HistorianAssemblySnapshot { compartments: self.load_compartments(session_id), revert_epoch }
    }

    /// The largest sequence of a session, zero where it has no compartment.
    pub fn max_compartment_seq(&self, session_id: &str) -> (r: i64)
        ensures
            r == max_sequence(of_session(self@.compartments, session_id@)),
    {
        largest_sequence(&session_rows(&self.compartments, session_id))
    }

    /// Whether a session has a compartment.
    pub fn has_compartments(&self, session_id: &str) -> (r: bool)
        ensures
            r == (of_session(self@.compartments, session_id@).len() > 0),
    {
        has_session(&self.compartments, session_id)
    }

    /// Replaces all compartments of a session and drops its transcripts.
    pub fn replace_compartments(
        &mut self,
        session_id: &str,
        compartments: &[StoredCompartment],
    ) -> (r: Result<(), McStoreError>)
        ensures
            match r {
                Ok(_) => {
                    &&& distinct_sequences(views(compartments@))
                    &&& final(self)@ == (McStoreModel {
                        transcripts: without_session(old(self)@.transcripts, session_id@),
                        compartments: without_session(old(self)@.compartments, session_id@)
                            + keyed_all(session_id@, views(compartments@)),
                        ..old(self)@
                    })
                },
                Err(e) => {
                    &&& !distinct_sequences(views(compartments@))
                    &&& e == McStoreError::Store(StoreError::Constraint)
                    &&& final(self)@ == old(self)@
                },
            },
            well_formed(old(self)@) ==> well_formed(final(self)@),
            commands_kept(old(self)@, final(self)@),
    {
        if !sequences_distinct(compartments) {
            return Err(McStoreError::Store(StoreError::Constraint));
        }
        let rows = slice_dup(compartments);
        remove_session(&mut self.transcripts, session_id);
        remove_session(&mut self.compartments, session_id);
        append_session(&mut self.compartments, session_id, rows);
        proof {
            if well_formed(old(self)@) {
                replaced_kept(old(self)@, session_id@, views(compartments@));
            }
        }
        Ok(())
    }

    /// Appends compartments behind those of the session; the given sequences do not count.
    pub fn append_compartments(
        &mut self,
        session_id: &str,
        compartments: &[StoredCompartment],
    ) -> (r: Result<(), McStoreError>)
        ensures
            ({
                let last = max_sequence(of_session(old(self)@.compartments, session_id@));
                match r {
                    Ok(_) => {
                        &&& sequences_left(last, compartments@.len())
                        &&& final(self)@ == (McStoreModel {
                            compartments: old(self)@.compartments + keyed_all(
                                session_id@,
                                renumbered(views(compartments@), last),
                            ),
                            ..old(self)@
                        })
                    },
                    Err(e) => {
                        &&& !sequences_left(last, compartments@.len())
                        &&& e == McStoreError::Store(StoreError::Exhausted)
                        &&& final(self)@ == old(self)@
                    },
                }
            }),
            well_formed(old(self)@) ==> well_formed(final(self)@),
            commands_kept(old(self)@, final(self)@),
    {
        let last: i64 = self.max_compartment_seq(session_id);
        if (last as i128) + (compartments.len() as i128) > i64::MAX as i128 {
            return Err(McStoreError::Store(StoreError::Exhausted));
        }
        let rows = renumber(compartments, last);
        append_session(&mut self.compartments, session_id, rows);
        proof {
            if well_formed(old(self)@) {
                appended_kept(old(self)@, session_id@, views(compartments@));
            }
        }
        Ok(())
    }
}

} // verus!
