//! Overlays: reminders and search hints that are appended to a block once and replayed.

use vstd::prelude::*;

use crate::rows::{
    group_views, of_session, session_rows, sort_rows, sorted, views, Keyed, KeyedModel,
    RowOrder,
};
use crate::store::drops::commands_kept;
use crate::store::integrity::{hint_kept, reminder_kept, well_formed};
use crate::store::records::{
    Channel1AppendRow, Channel1AppendRowModel, McTagRowModel, UserHintRow, UserHintRowModel,
};
use crate::store::{McStore, McStoreModel};
use crate::text::{
    same_text, text_before, text_le, text_order_total, text_order_transitive,
};

verus! {

/// The blocks that carry a reminder.
pub open spec fn reminded_blocks(rows: Seq<Channel1AppendRowModel>) -> Seq<Seq<char>> {
    rows.map_values(|r: Channel1AppendRowModel| r.block_id)
}

/// The blocks for which a hint was decided.
pub open spec fn hinted_blocks(rows: Seq<UserHintRowModel>) -> Seq<Seq<char>> {
    rows.map_values(|r: UserHintRowModel| r.block_id)
}

/// Whether a tag numbered above `limit` belongs to a hinted block.
pub open spec fn later_hint(
    hints: Seq<UserHintRowModel>,
    tags: Seq<McTagRowModel>,
    limit: i64,
) -> bool {
    exists|i: int|
        0 <= i < tags.len() && (#[trigger] tags[i]).tag_number > limit && hinted_blocks(
            hints,
        ).contains(tags[i].block_id)
}

/// The order of reminders: by time, then by block.
pub struct ReminderOrder;

impl RowOrder<Channel1AppendRow> for ReminderOrder {
    open spec fn le(a: Channel1AppendRowModel, b: Channel1AppendRowModel) -> bool {
        a.fired_at_ms < b.fired_at_ms || (a.fired_at_ms == b.fired_at_ms && text_le(
            a.block_id,
            b.block_id,
        ))
    }

    proof fn le_total(a: Channel1AppendRowModel, b: Channel1AppendRowModel) {
        text_order_total(a.block_id, b.block_id);
    }

    proof fn le_transitive(
        a: Channel1AppendRowModel,
        b: Channel1AppendRowModel,
        c: Channel1AppendRowModel,
    ) {
        text_order_transitive(a.block_id, b.block_id, c.block_id);
    }

    fn at_most(a: &Channel1AppendRow, b: &Channel1AppendRow) -> (r: bool) {
        a.fired_at_ms < b.fired_at_ms || (a.fired_at_ms == b.fired_at_ms && !text_before(
            &b.block_id,
            &a.block_id,
        ))
    }
}

/// The order of hints: by time, then by block.
pub struct HintOrder;

impl RowOrder<UserHintRow> for HintOrder {
    open spec fn le(a: UserHintRowModel, b: UserHintRowModel) -> bool {
        a.created_at < b.created_at || (a.created_at == b.created_at && text_le(
            a.block_id,
            b.block_id,
        ))
    }

    proof fn le_total(a: UserHintRowModel, b: UserHintRowModel) {
        text_order_total(a.block_id, b.block_id);
    }

    proof fn le_transitive(a: UserHintRowModel, b: UserHintRowModel, c: UserHintRowModel) {
        text_order_transitive(a.block_id, b.block_id, c.block_id);
    }

    fn at_most(a: &UserHintRow, b: &UserHintRow) -> (r: bool) {
        a.created_at < b.created_at || (a.created_at == b.created_at && !text_before(
            &b.block_id,
            &a.block_id,
        ))
    }
}

fn names_reminded(rows: &Vec<Channel1AppendRow>, block: &str) -> (r: bool)
    ensures
        r == reminded_blocks(views(rows@)).contains(block@),
{
    let mut i: usize = 0;
    while i < rows.len()
        invariant
            i <= rows.len(),
            forall|j: int| 0 <= j < i ==> #[trigger] reminded_blocks(views(rows@))[j] != block@,
        decreases rows.len() - i,
    {
        if same_text(&rows[i].block_id, block) {
            assert(reminded_blocks(views(rows@))[i as int] == block@);
            return true;
        }
        i += 1;
    }
    false
}

fn names_hinted(rows: &Vec<UserHintRow>, block: &str) -> (r: bool)
    ensures
        r == hinted_blocks(views(rows@)).contains(block@),
{
    let mut i: usize = 0;
    while i < rows.len()
        invariant
            i <= rows.len(),
            forall|j: int| 0 <= j < i ==> #[trigger] hinted_blocks(views(rows@))[j] != block@,
        decreases rows.len() - i,
    {
        if same_text(&rows[i].block_id, block) {
            assert(hinted_blocks(views(rows@))[i as int] == block@);
            return true;
        }
        i += 1;
    }
    false
}

impl McStore {
    /// Appends a reminder to a block that has none yet, and tells whether it did.
    pub fn append_channel1_nudge(
        &mut self,
        session_id: &str,
        block_id: &str,
        reminder_text: &str,
        fired_at_ms: i64,
    ) -> (r: bool)
        ensures
            r == !reminded_blocks(of_session(old(self)@.channel1_appends, session_id@)).contains(
                block_id@,
            ),
            final(self)@ == (if r {
                McStoreModel {
                    channel1_appends: old(self)@.channel1_appends.push(
                        KeyedModel {
                            session: session_id@,
                            row: Channel1AppendRowModel {
                                block_id: block_id@,
                                reminder_text: reminder_text@,
                                fired_at_ms,
                            },
                        },
                    ),
                    ..old(self)@
                }
            } else {
                old(self)@
            }),
            well_formed(old(self)@) ==> well_formed(final(self)@),
            commands_kept(old(self)@, final(self)@),
    {
        broadcast use group_views;

        let rows = session_rows(&self.channel1_appends, session_id);
        if names_reminded(&rows, block_id) {
            return false;
        }
        proof {
            if well_formed(old(self)@) {
                reminder_kept(
                    old(self)@,
                    session_id@,
                    Channel1AppendRowModel {
                        block_id: block_id@,
                        reminder_text: reminder_text@,
                        fired_at_ms,
                    },
                );
            }
        }
        self.channel1_appends.push(
            Keyed {
                session_id: session_id.to_owned(),
                row: Channel1AppendRow {
                    block_id: block_id.to_owned(),
                    reminder_text: reminder_text.to_owned(),
                    fired_at_ms,
                },
            },
        );
        true
    }

    /// Reads the reminders of a session in replay order.
    pub fn load_channel1_appends(&self, session_id: &str) -> (r: Vec<Channel1AppendRow>)
        ensures
            views(r@) == sorted::<Channel1AppendRow, ReminderOrder>(
                of_session(self@.channel1_appends, session_id@),
            ),
    {
        sort_rows::<Channel1AppendRow, ReminderOrder>(
            session_rows(&self.channel1_appends, session_id),
        )
    }

    /// Whether a block may still get its hint: neither it nor a block tagged later has one.
    pub fn user_hint_frontier_open(&self, session_id: &str, block_id: &str, tag_number: i64) -> (r:
        bool)
        ensures
            r == ({
                let hints = of_session(self@.user_hints, session_id@);
                let tags = of_session(self@.tags, session_id@);
                !hinted_blocks(hints).contains(block_id@) && !later_hint(hints, tags, tag_number)
            }),
    {
        let hints = session_rows(&self.user_hints, session_id);
        if names_hinted(&hints, block_id) {
            return false;
        }
        let tags = session_rows(&self.tags, session_id);
        let mut i: usize = 0;
        while i < tags.len()
            invariant
                i <= tags.len(),
                views(hints@) == of_session(self@.user_hints, session_id@),
                views(tags@) == of_session(self@.tags, session_id@),
                forall|j: int|
                    0 <= j < i ==> !((#[trigger] views(tags@)[j]).tag_number > tag_number
                        && hinted_blocks(views(hints@)).contains(views(tags@)[j].block_id)),
            decreases tags.len() - i,
        {
            if tags[i].tag_number > tag_number && names_hinted(&hints, &tags[i].block_id) {
                assert(views(tags@)[i as int].tag_number > tag_number);
                return false;
            }
            assert(views(tags@)[i as int] == tags@[i as int]@);
            i += 1;
        }
        true
    }

    /// Records the hint decided for a block that has none yet, and tells whether it did.
    pub fn append_user_hint(
        &mut self,
        session_id: &str,
        block_id: &str,
        hint_text: &str,
        created_at: i64,
    ) -> (r: bool)
        ensures
            r == !hinted_blocks(of_session(old(self)@.user_hints, session_id@)).contains(block_id@),
            final(self)@ == (if r {
                McStoreModel {
                    user_hints: old(self)@.user_hints.push(
                        KeyedModel {
                            session: session_id@,
                            row: UserHintRowModel {
                                block_id: block_id@,
                                hint_text: hint_text@,
                                created_at,
                            },
                        },
                    ),
                    ..old(self)@
                }
            } else {
                old(self)@
            }),
            well_formed(old(self)@) ==> well_formed(final(self)@),
            commands_kept(old(self)@, final(self)@),
    {
        broadcast use group_views;

        let rows = session_rows(&self.user_hints, session_id);
        if names_hinted(&rows, block_id) {
            return false;
        }
        proof {
            if well_formed(old(self)@) {
                hint_kept(
                    old(self)@,
                    session_id@,
                    UserHintRowModel { block_id: block_id@, hint_text: hint_text@, created_at },
                );
            }
        }
        self.user_hints.push(
            Keyed {
                session_id: session_id.to_owned(),
                row: UserHintRow {
                    block_id: block_id.to_owned(),
                    hint_text: hint_text.to_owned(),
                    created_at,
                },
            },
        );
        true
    }

    /// Reads the hints of a session in replay order.
    pub fn load_user_hints(&self, session_id: &str) -> (r: Vec<UserHintRow>)
        ensures
            views(r@) == sorted::<UserHintRow, HintOrder>(
                of_session(self@.user_hints, session_id@),
            ),
    {
        sort_rows::<UserHintRow, HintOrder>(session_rows(&self.user_hints, session_id))
    }
}

} // verus!
