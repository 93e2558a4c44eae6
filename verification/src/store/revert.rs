//! Cutting a session's history back after a revert.

use vstd::prelude::*;

use crate::meta::{CoreState, ModuleMeta, ModuleMetaModel};
use crate::rows::{
    group_views, keep_where, of_session, row_of, select_rows, session_rows, set_row, find_session,
    sort_rows, views, Keyed, KeyedModel, Row, RowTest,
};
use crate::store::cache::{
    next_version, version_found, version_left, version_of, with_cache, LAST_ROW_VERSION,
};
use crate::store::compartments::{by_sequence, SequenceOrder};
use crate::store::drops::{commands_kept, without_drops};
use crate::store::errors::{McStoreError, StoreError};
use crate::store::integrity::{cache_kept, cut_kept, well_formed};
use crate::store::records::{
    CacheRow, CacheRowModel, LoadedState, StoredCompartment, StoredCompartmentModel,
    TranscriptRow, TranscriptRowModel, TruncateOutcome, TruncateOutcomeModel,
};
use crate::store::{McStore, McStoreModel};
use crate::text::{i64_text, int_text, owned, same_text, u64_text};

verus! {

/// A compartment behind a sequence.
pub open spec fn behind(keep: i64) -> spec_fn(StoredCompartmentModel) -> bool {
    |c: StoredCompartmentModel| c.sequence > keep
}

/// A compartment up to a sequence.
pub open spec fn up_to(keep: i64) -> spec_fn(StoredCompartmentModel) -> bool {
    |c: StoredCompartmentModel| c.sequence <= keep
}

/// The compartments of a session that a cut drops, oldest first.
pub open spec fn dropped(s: McStoreModel, session: Seq<char>, keep: i64) -> Seq<
    StoredCompartmentModel,
> {
    by_sequence(keep_where(of_session(s.compartments, session), behind(keep)))
}

/// The compartments of a session that survive a cut, oldest first.
pub open spec fn surviving(s: McStoreModel, session: Seq<char>, keep: i64) -> Seq<
    StoredCompartmentModel,
> {
    by_sequence(keep_where(of_session(s.compartments, session), up_to(keep)))
}

/// What a cut leaves behind as its trace.
pub open spec fn recut_text(
    gone: Seq<StoredCompartmentModel>,
    left: Seq<StoredCompartmentModel>,
    epoch: u64,
) -> Seq<char> {
    let range = if gone[0].sequence == gone.last().sequence {
        int_text(gone[0].sequence as int)
    } else {
        int_text(gone[0].sequence as int) + ".."@ + int_text(gone.last().sequence as int)
    };
    let seq = if left.len() > 0 {
        int_text(left.last().sequence as int)
    } else {
        "none"@
    };
    let head = if left.len() > 0 {
        left[0].start_message_id
    } else {
        "none"@
    };
    let tail = if left.len() > 0 {
        left.last().end_message_id
    } else {
        "none"@
    };
    "dropped seq "@ + range + "; surviving seq "@ + seq + "; live head "@ + head + "; live tail "@
        + tail + "; epoch "@ + int_text(epoch as int)
}

/// A row that stays when a session's compartments behind a sequence go.
pub open spec fn compartment_stays(session: Seq<char>, keep: i64) -> spec_fn(
    KeyedModel<StoredCompartmentModel>,
) -> bool {
    |k: KeyedModel<StoredCompartmentModel>| k.session != session || k.row.sequence <= keep
}

/// A row that stays when a session's transcripts behind a sequence go.
pub open spec fn transcript_stays(session: Seq<char>, keep: i64) -> spec_fn(
    KeyedModel<TranscriptRowModel>,
) -> bool {
    |k: KeyedModel<TranscriptRowModel>| k.session != session || k.row.compartment_seq <= keep
}

/// The revert epoch behind another; the last one stays.
pub open spec fn next_epoch(epoch: u64) -> u64 {
    if epoch == u64::MAX {
        epoch
    } else {
        (epoch + 1) as u64
    }
}

/// The record after a cut.
pub open spec fn recut_meta(
    meta: ModuleMetaModel,
    gone: Seq<StoredCompartmentModel>,
    left: Seq<StoredCompartmentModel>,
) -> ModuleMetaModel {
    ModuleMetaModel {
        revert_epoch: next_epoch(meta.revert_epoch),
        last_recut: Some(recut_text(gone, left, next_epoch(meta.revert_epoch))),
        ..meta
    }
}

/// The store after a cut.
pub open spec fn with_cut(s: McStoreModel, session: Seq<char>, keep: i64, row: CacheRowModel) ->
    McStoreModel {
    McStoreModel {
        transcripts: keep_where(s.transcripts, transcript_stays(session, keep)),
        compartments: keep_where(s.compartments, compartment_stays(session, keep)),
        ..with_cache(
            s,
            session,
            next_version(s, session),
            row.core,
            recut_meta(row.meta, dropped(s, session, keep), surviving(s, session, keep)),
        )
    }
}

/// What a cut does and returns: nothing where no compartment lies behind `keep`.
pub open spec fn truncation(s: McStoreModel, session: Seq<char>, keep: i64, row: CacheRowModel) -> (
    McStoreModel,
    TruncateOutcomeModel,
) {
    if dropped(s, session, keep).len() == 0 {
        (
            s,
            TruncateOutcomeModel {
                revert_epoch: row.meta.revert_epoch,
                last_recut: row.meta.last_recut,
                row_version: row.row_version,
            },
        )
    } else {
        let meta = recut_meta(row.meta, dropped(s, session, keep), surviving(s, session, keep));
        (
            with_cut(s, session, keep, row),
            TruncateOutcomeModel {
                revert_epoch: meta.revert_epoch,
                last_recut: meta.last_recut,
                row_version: next_version(s, session),
            },
        )
    }
}

/// The store behind a cut that waits to be written, if one does.
pub open spec fn behind_cut(s: McStoreModel, session: Seq<char>, cut: Option<i64>) -> McStoreModel {
    match cut {
        Some(keep) => truncation(s, session, keep, row_of(s.cache, session)->0).0,
        None => s,
    }
}

/// Whether there is room for the version of a cut that drops something, and for that of a
/// commit behind it.
pub open spec fn cut_fits(s: McStoreModel, session: Seq<char>, cut: Option<i64>) -> bool {
    &&& cut matches Some(keep) ==> (dropped(s, session, keep).len() > 0 ==> version_left(s, session))
    &&& version_left(behind_cut(s, session, cut), session)
}

/// Whether a commit with a cut is refused because the row is gone or moved.
pub open spec fn cut_conflicts(
    s: McStoreModel,
    session: Seq<char>,
    expected: Option<u64>,
    cut: Option<i64>,
) -> bool {
    expected != version_of(s, session) || (cut is Some && row_of(s.cache, session) is None)
}

/// The compartments that survive a cut are those that the store holds behind it, so that a
/// history rendered from them is the history of the store once the cut is written.
pub proof fn survivors_are_the_history(
    s: McStoreModel,
    session: Seq<char>,
    keep: i64,
    row: CacheRowModel,
)
    ensures
        by_sequence(of_session(truncation(s, session, keep, row).0.compartments, session))
            == surviving(s, session, keep),
{
    let rows = of_session(s.compartments, session);
    if dropped(s, session, keep).len() == 0 {
        crate::rows::sorted_len::<StoredCompartment, SequenceOrder>(
            keep_where(rows, behind(keep)),
        );
        none_behind_means_all_stay(rows, keep);
    } else {
        a_cut_keeps_the_prefix(s.compartments, session, keep, session);
    }
}

proof fn none_behind_means_all_stay(rows: Seq<StoredCompartmentModel>, keep: i64)
    requires
        keep_where(rows, behind(keep)).len() == 0,
    ensures
        keep_where(rows, up_to(keep)) == rows,
    decreases rows.len(),
{
    if rows.len() > 0 {
        none_behind_means_all_stay(rows.drop_last(), keep);
        assert(!behind(keep)(rows.last()));
        assert(rows.drop_last().push(rows.last()) =~= rows);
    } else {
        assert(keep_where(rows, up_to(keep)) =~= rows);
    }
}

/// A cut leaves of the session what lies up to `keep`, and of every other session all.
pub proof fn a_cut_keeps_the_prefix(
    table: Seq<KeyedModel<StoredCompartmentModel>>,
    session: Seq<char>,
    keep: i64,
    other: Seq<char>,
)
    ensures
        of_session(keep_where(table, compartment_stays(session, keep)), other) == (if other
            == session {
            keep_where(of_session(table, session), up_to(keep))
        } else {
            of_session(table, other)
        }),
    decreases table.len(),
{
    let p = compartment_stays(session, keep);
    let q = up_to(keep);
    if table.len() == 0 {
        assert(keep_where(table, p) =~= Seq::empty());
        assert(of_session(table, session) =~= Seq::empty());
        assert(keep_where(of_session(table, session), q) =~= Seq::empty());
        assert(of_session(keep_where(table, p), other) =~= Seq::empty());
    } else {
        let rest = table.drop_last();
        let k = table.last();
        a_cut_keeps_the_prefix(rest, session, keep, other);
        if p(k) {
            crate::rows::of_session_push(keep_where(rest, p), k, other);
        }
        if k.session == session {
            let rows = of_session(rest, session);
            assert(rows.push(k.row).drop_last() =~= rows);
            assert(of_session(table, session) == rows.push(k.row));
        }
    }
}

/// Cutting a second time at the same place, with no compartment published in between, finds
/// nothing to drop.
pub proof fn a_second_cut_drops_nothing(s: McStoreModel, session: Seq<char>, keep: i64, row: CacheRowModel)
    ensures
        dropped(with_cut(s, session, keep, row), session, keep).len() == 0,
{
    let rows = of_session(s.compartments, session);
    a_cut_keeps_the_prefix(s.compartments, session, keep, session);
    let left = keep_where(rows, up_to(keep));
    crate::rows::kept_is_accepted(rows, up_to(keep));
    crate::rows::kept_is_accepted(left, behind(keep));
    let gone = keep_where(left, behind(keep));
    if gone.len() > 0 {
        let c = gone[0];
        assert(behind(keep)(c));
        assert(left.contains(c));
        let k = choose|k: int| 0 <= k < left.len() && left[k] == c;
        assert(up_to(keep)(left[k]));
    }
    crate::rows::sorted_len::<StoredCompartment, SequenceOrder>(gone);
}

/// Accepts compartments behind a sequence.
pub struct Behind {
    pub keep: i64,
}

impl RowTest<StoredCompartment> for Behind {
    open spec fn accepts(&self) -> spec_fn(StoredCompartmentModel) -> bool {
        behind(self.keep)
    }

    fn test(&self, row: &StoredCompartment) -> (r: bool) {
        row.sequence > self.keep
    }
}

/// Accepts compartments up to a sequence.
pub struct UpTo {
    pub keep: i64,
}

impl RowTest<StoredCompartment> for UpTo {
    open spec fn accepts(&self) -> spec_fn(StoredCompartmentModel) -> bool {
        up_to(self.keep)
    }

    fn test(&self, row: &StoredCompartment) -> (r: bool) {
        row.sequence <= self.keep
    }
}

/// Accepts the compartments that survive a cut.
pub struct CompartmentStays<'a> {
    pub session: &'a str,
    pub keep: i64,
}

impl<'a> RowTest<Keyed<StoredCompartment>> for CompartmentStays<'a> {
    open spec fn accepts(&self) -> spec_fn(KeyedModel<StoredCompartmentModel>) -> bool {
        compartment_stays(self.session@, self.keep)
    }

    fn test(&self, row: &Keyed<StoredCompartment>) -> (r: bool) {
        !same_text(&row.session_id, self.session) || row.row.sequence <= self.keep
    }
}

/// Accepts the transcripts that survive a cut.
pub struct TranscriptStays<'a> {
    pub session: &'a str,
    pub keep: i64,
}

impl<'a> RowTest<Keyed<TranscriptRow>> for TranscriptStays<'a> {
    open spec fn accepts(&self) -> spec_fn(KeyedModel<TranscriptRowModel>) -> bool {
        transcript_stays(self.session@, self.keep)
    }

    fn test(&self, row: &Keyed<TranscriptRow>) -> (r: bool) {
        !same_text(&row.session_id, self.session) || row.row.compartment_seq <= self.keep
    }
}

fn write_recut(gone: &Vec<StoredCompartment>, left: &Vec<StoredCompartment>, epoch: u64) -> (r:
    String)
    requires
        gone.len() > 0,
    ensures
        r@ == recut_text(views(gone@), views(left@), epoch),
{
    broadcast use group_views;

    let first: i64 = gone[0].sequence;
    let last: i64 = gone[gone.len() - 1].sequence;
    assert(views(gone@)[0] == gone@[0]@);
    assert(views(gone@).last() == gone@.last()@);
    let mut r = owned("dropped seq ");
    let mut range = i64_text(first);
    if first != last {
        range.append("..");
        range.append(&i64_text(last));
    }
    let seq: String;
    let head: String;
    let tail: String;
    if left.len() > 0 {
        assert(views(left@)[0] == left@[0]@);
        assert(views(left@).last() == left@.last()@);
        seq = i64_text(left[left.len() - 1].sequence);
        head = left[0].start_message_id.clone();
        tail = left[left.len() - 1].end_message_id.clone();
    } else {
        seq = owned("none");
        head = owned("none");
        tail = owned("none");
    }
    r.append(&range);
    r.append("; surviving seq ");
    r.append(&seq);
    r.append("; live head ");
    r.append(&head);
    r.append("; live tail ");
    r.append(&tail);
    r.append("; epoch ");
    r.append(&u64_text(epoch));
    r
}

impl McStore {
    /// Works out what a cut does, without writing it: what it returns, and whether there is
    /// anything to drop.
    pub(crate) fn plan_cut(
        &self,
        session_id: &str,
        keep_through_seq: i64,
        expected_row_version: Option<u64>,
    ) -> (r: Result<(TruncateOutcome, bool), McStoreError>)
        ensures
            ({
                let s = self@;
                let conflict = row_of(s.cache, session_id@) is None || expected_row_version
                    != version_of(s, session_id@);
                let drops = dropped(s, session_id@, keep_through_seq).len() > 0;
                let full = drops && !version_left(s, session_id@);
                match r {
                    Ok(planned) => {
                        &&& !conflict && !full
                        &&& planned.1 == drops
                        &&& row_of(s.cache, session_id@) matches Some(row) && planned.0@
                            == truncation(s, session_id@, keep_through_seq, row).1
                    },
                    Err(e) => {
                        &&& conflict || full
                        &&& e == (if conflict {
                            McStoreError::CasConflict {
                                expected: expected_row_version,
                                found: version_found(s, session_id@),
                            }
                        } else {
                            McStoreError::Store(StoreError::Exhausted)
                        })
                    },
                }
            }),
    {
        broadcast use group_views;

        let ghost s = self@;
        let at: usize = match find_session(&self.cache, session_id) {
            Some(at) => at,
            None => {
                return Err(McStoreError::CasConflict { expected: expected_row_version, found: 0 });
            },
        };
        let row = &self.cache[at].row;
        let same: bool = match expected_row_version {
            Some(v) => v == row.row_version,
            None => false,
        };
        if !same {
            return Err(
                McStoreError::CasConflict {
                    expected: expected_row_version,
                    found: row.row_version,
                },
            );
        }
        let all = session_rows(&self.compartments, session_id);
        let gone = sort_rows::<StoredCompartment, SequenceOrder>(
            select_rows(&all, &Behind { keep: keep_through_seq }),
        );
        assert(views(gone@) == dropped(s, session_id@, keep_through_seq));
        if gone.len() == 0 {
            let outcome = TruncateOutcome {
                revert_epoch: row.meta.revert_epoch,
                last_recut: crate::rows::opt_dup(&row.meta.last_recut),
                row_version: row.row_version,
            };
            return Ok((outcome, false));
        }
        if row.row_version >= LAST_ROW_VERSION {
            return Err(McStoreError::Store(StoreError::Exhausted));
        }
        let left = self.compartments_through(session_id, keep_through_seq);
        let epoch: u64 = if row.meta.revert_epoch == u64::MAX {
            u64::MAX
        } else {
            row.meta.revert_epoch + 1
        };
        let outcome = TruncateOutcome {
            revert_epoch: epoch,
            last_recut: Some(write_recut(&gone, &left, epoch)),
            row_version: row.row_version + 1,
        };
        Ok((outcome, true))
    }

    /// Reads the compartments of a session up to a sequence, oldest first.
    pub(crate) fn compartments_through(&self, session_id: &str, keep: i64) -> (r: Vec<
        StoredCompartment,
    >)
        ensures
            views(r@) == surviving(self@, session_id@, keep),
    {
        let all = session_rows(&self.compartments, session_id);
        sort_rows::<StoredCompartment, SequenceOrder>(select_rows(&all, &UpTo { keep }))
    }

    /// Drops every compartment of a session behind `keep_through_seq`, with its transcript,
    /// and raises the revert epoch, where the cache row has the expected version. Where
    /// nothing lies behind, nothing is written.
    pub fn truncate_compartments_for_revert(
        &mut self,
        session_id: &str,
        keep_through_seq: i64,
        expected_row_version: Option<u64>,
    ) -> (r: Result<TruncateOutcome, McStoreError>)
        ensures
            ({
                let s = old(self)@;
                let conflict = row_of(s.cache, session_id@) is None || expected_row_version
                    != version_of(s, session_id@);
                let full = dropped(s, session_id@, keep_through_seq).len() > 0 && !version_left(
                    s,
                    session_id@,
                );
                match r {
                    Ok(outcome) => {
                        &&& !conflict && !full
                        &&& row_of(s.cache, session_id@) matches Some(row) && truncation(
                            s,
                            session_id@,
                            keep_through_seq,
                            row,
                        ) == (final(self)@, outcome@)
                    },
                    Err(e) => {
                        &&& conflict || full
                        &&& e == (if conflict {
                            McStoreError::CasConflict {
                                expected: expected_row_version,
                                found: version_found(s, session_id@),
                            }
                        } else {
                            McStoreError::Store(StoreError::Exhausted)
                        })
                        &&& final(self)@ == s
                    },
                }
            }),
            well_formed(old(self)@) ==> well_formed(final(self)@),
            commands_kept(old(self)@, final(self)@),
    {
        broadcast use group_views;

        let ghost s = self@;
        let (outcome, drops) = match self.plan_cut(
            session_id,
            keep_through_seq,
            expected_row_version,
        ) {
            Ok(planned) => planned,
            Err(e) => {
                return Err(e);
            },
        };
        if !drops {
            return Ok(outcome);
        }
        let LoadedState { core, meta, row_version: _ } = self.load(session_id);
        let mut meta = meta;
        meta.revert_epoch = outcome.revert_epoch;
        meta.last_recut = crate::rows::opt_dup(&outcome.last_recut);
        let next: u64 = outcome.row_version;
        assert(meta@ == recut_meta(
            row_of(s.cache, session_id@)->0.meta,
            dropped(s, session_id@, keep_through_seq),
            surviving(s, session_id@, keep_through_seq),
        ));
        self.transcripts = select_rows(
            &self.transcripts,
            &TranscriptStays { session: session_id, keep: keep_through_seq },
        );
        self.compartments = select_rows(
            &self.compartments,
            &CompartmentStays { session: session_id, keep: keep_through_seq },
        );
        proof {
            if well_formed(s) {
                cut_kept(s, session_id@, keep_through_seq);
                cache_kept(
                    self@,
                    session_id@,
                    CacheRowModel { row_version: next, core: core@, meta: meta@ },
                );
            }
        }
        set_row(&mut self.cache, session_id, CacheRow { row_version: next, core, meta });
        Ok(outcome)
    }

    /// Writes a cut that waits, if one does, and commits a session's cache behind it, as one
    /// operation: where either cannot be written, neither is.
    pub(crate) fn commit_behind_cut(
        &mut self,
        session_id: &str,
        cut: Option<i64>,
        expected: Option<u64>,
        core: &CoreState,
        meta: &ModuleMeta,
        consumed_drop_ids: &[i64],
    ) -> (r: Result<u64, McStoreError>)
        ensures
            ({
                let s = old(self)@;
                let t = behind_cut(s, session_id@, cut);
                let conflict = cut_conflicts(s, session_id@, expected, cut);
                match r {
                    Ok(v) => {
                        &&& !conflict && cut_fits(s, session_id@, cut)
                        &&& v == next_version(t, session_id@)
                        &&& final(self)@ == (McStoreModel {
                            drops: without_drops(t.drops, session_id@, consumed_drop_ids@),
                            ..with_cache(t, session_id@, v, core@, meta@)
                        })
                    },
                    Err(e) => {
                        &&& conflict || !cut_fits(s, session_id@, cut)
                        &&& e == (if conflict {
                            McStoreError::CasConflict {
                                expected,
                                found: version_found(s, session_id@),
                            }
                        } else {
                            McStoreError::Store(StoreError::Exhausted)
                        })
                        &&& final(self)@ == s
                    },
                }
            }),
            well_formed(old(self)@) ==> well_formed(final(self)@),
            commands_kept(old(self)@, final(self)@),
    {
        let ghost s = self@;
        let keep: i64 = match cut {
            Some(keep) => keep,
            None => {
                return self.commit_with_consumed_drops(
                    session_id,
                    expected,
                    core,
                    meta,
                    consumed_drop_ids,
                    None,
                );
            },
        };
        let (outcome, drops) = match self.plan_cut(session_id, keep, expected) {
            Ok(planned) => planned,
            Err(e) => {
                return Err(e);
            },
        };
        proof {
            cut_version(s, session_id@, keep);
        }
        if outcome.row_version >= LAST_ROW_VERSION {
            return Err(McStoreError::Store(StoreError::Exhausted));
        }
        match self.truncate_compartments_for_revert(session_id, keep, expected) {
            Ok(_) => {},
            Err(e) => {
                return Err(e);
            },
        }
        self.commit_with_consumed_drops(
            session_id,
            Some(outcome.row_version),
            core,
            meta,
            consumed_drop_ids,
            None,
        )
    }
}

/// The version that a session's row has behind a cut.
proof fn cut_version(s: McStoreModel, session: Seq<char>, keep: i64)
    requires
        row_of(s.cache, session) is Some,
        dropped(s, session, keep).len() > 0 ==> version_left(s, session),
    ensures
        ({
            let (t, outcome) = truncation(s, session, keep, row_of(s.cache, session)->0);
            version_of(t, session) == Some(outcome.row_version)
        }),
{
    let row = row_of(s.cache, session)->0;
    if dropped(s, session, keep).len() > 0 {
        let meta = recut_meta(row.meta, dropped(s, session, keep), surviving(s, session, keep));
        crate::rows::row_of_put(
            s.cache,
            session,
            CacheRowModel { row_version: next_version(s, session), core: row.core, meta },
            session,
        );
    }
}

} // verus!
