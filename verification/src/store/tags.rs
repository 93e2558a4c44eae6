//! Tags: the numbers under which the agent sees blocks.

use vstd::prelude::*;

use crate::rows::{
    slice_names,
    append_session, group_views, keyed_all, list_dup, of_session, session_rows,
    sort_rows, sorted, take_all, take_next, views, Row, RowOrder,
};
use crate::store::drops::commands_kept;
use crate::store::errors::{McStoreError, StoreError};
use crate::store::integrity::{tags_kept, well_formed};
use crate::store::records::{McTagRow, McTagRowModel, TagMintInput, TagMintInputModel};
use crate::store::{McStore, McStoreModel};
use crate::text::{same_text, trim, trimmed};

verus! {

/// The largest tag number in use, zero where there is none.
pub open spec fn max_tag(rows: Seq<McTagRowModel>) -> i64
    decreases rows.len(),
{
    if rows.len() == 0 {
        0
    } else if rows.len() == 1 {
        rows[0].tag_number
    } else {
        let rest = max_tag(rows.drop_last());
        if rest >= rows.last().tag_number {
            rest
        } else {
            rows.last().tag_number
        }
    }
}

/// The tag of a block.
pub open spec fn tag_of(rows: Seq<McTagRowModel>, block: Seq<char>) -> Option<McTagRowModel>
    decreases rows.len(),
{
    if rows.len() == 0 {
        None
    } else {
        match tag_of(rows.drop_last(), block) {
            Some(t) => Some(t),
            None => if rows.last().block_id == block {
                Some(rows.last())
            } else {
                None
            },
        }
    }
}

/// The kinds of block that may be tagged.
pub open spec fn taggable(kind: Seq<char>) -> bool {
    kind == "message"@ || kind == "tool_call"@ || kind == "tool_result"@
}

/// A count, with a negative one read as zero.
pub open spec fn non_negative(n: i64) -> i64 {
    if n < 0 {
        0
    } else {
        n
    }
}

/// The tag that a block without one gets.
pub open spec fn new_tag(
    rows: Seq<McTagRowModel>,
    input: TagMintInputModel,
    at_ms: i64,
) -> McTagRowModel {
    McTagRowModel {
        tag_number: (max_tag(rows) + 1) as i64,
        block_id: trimmed(input.block_id),
        kind: input.kind,
        token_count: non_negative(input.token_count),
        created_at_ms: at_ms,
        source_bytes: input.source_bytes,
    }
}

/// The tags of a session after `inputs` were seen: those it has, then one for every block
/// that has none, in order of sight. Blocks with a blank id are passed over.
pub open spec fn tags_after(
    rows: Seq<McTagRowModel>,
    inputs: Seq<TagMintInputModel>,
    at_ms: i64,
) -> Seq<McTagRowModel>
    decreases inputs.len(),
{
    if inputs.len() == 0 {
        rows
    } else {
        let before = tags_after(rows, inputs.drop_last(), at_ms);
        let block = trimmed(inputs.last().block_id);
        if block.len() == 0 || tag_of(before, block) is Some {
            before
        } else {
            before.push(new_tag(before, inputs.last(), at_ms))
        }
    }
}

/// Why minting fails, if it does: no number is left, or a new tag is for no taggable kind.
pub open spec fn mint_failure(
    rows: Seq<McTagRowModel>,
    inputs: Seq<TagMintInputModel>,
    at_ms: i64,
) -> Option<StoreError>
    decreases inputs.len(),
{
    if inputs.len() == 0 {
        None
    } else {
        let before = tags_after(rows, inputs.drop_last(), at_ms);
        let block = trimmed(inputs.last().block_id);
        match mint_failure(rows, inputs.drop_last(), at_ms) {
            Some(e) => Some(e),
            None => if block.len() == 0 || tag_of(before, block) is Some {
                None
            } else if max_tag(before) == i64::MAX {
                Some(StoreError::Exhausted)
            } else if !taggable(inputs.last().kind) {
                Some(StoreError::Constraint)
            } else {
                None
            },
        }
    }
}

/// The tags of the requested blocks, in request order.
pub open spec fn requested_tags(
    rows: Seq<McTagRowModel>,
    inputs: Seq<TagMintInputModel>,
) -> Seq<McTagRowModel>
    decreases inputs.len(),
{
    if inputs.len() == 0 {
        Seq::empty()
    } else {
        let rest = requested_tags(rows, inputs.drop_last());
        let block = trimmed(inputs.last().block_id);
        if block.len() == 0 {
            rest
        } else {
            rest.push(tag_of(rows, block)->0)
        }
    }
}

/// A tag, once given, stays the tag of its block.
pub proof fn tag_of_stays(rows: Seq<McTagRowModel>, added: McTagRowModel, block: Seq<char>)
    ensures
        tag_of(rows, block) matches Some(t) ==> tag_of(rows.push(added), block) == Some(t),
        tag_of(rows, block) is None ==> tag_of(rows.push(added), block) == (if added.block_id
            == block {
            Some(added)
        } else {
            None
        }),
{
    assert(rows.push(added).drop_last() =~= rows);
}

/// Minting only appends: every tag a block had, it keeps, whatever else is seen.
pub proof fn tags_keep_their_numbers(
    rows: Seq<McTagRowModel>,
    inputs: Seq<TagMintInputModel>,
    at_ms: i64,
    block: Seq<char>,
)
    ensures
        tag_of(rows, block) matches Some(t) ==> tag_of(tags_after(rows, inputs, at_ms), block)
            == Some(t),
        rows.is_prefix_of(tags_after(rows, inputs, at_ms)),
    decreases inputs.len(),
{
    if inputs.len() > 0 {
        let before = tags_after(rows, inputs.drop_last(), at_ms);
        tags_keep_their_numbers(rows, inputs.drop_last(), at_ms, block);
        tag_of_stays(before, new_tag(before, inputs.last(), at_ms), block);
    }
}

/// After minting, every requested block that is not blank has a tag.
pub proof fn requested_blocks_are_tagged(
    rows: Seq<McTagRowModel>,
    inputs: Seq<TagMintInputModel>,
    at_ms: i64,
    i: int,
)
    requires
        0 <= i < inputs.len(),
        trimmed(inputs[i].block_id).len() > 0,
    ensures
        tag_of(tags_after(rows, inputs, at_ms), trimmed(inputs[i].block_id)) is Some,
    decreases inputs.len(),
{
    let before = tags_after(rows, inputs.drop_last(), at_ms);
    let block = trimmed(inputs[i].block_id);
    tag_of_stays(before, new_tag(before, inputs.last(), at_ms), block);
    if i < inputs.len() - 1 {
        assert(inputs.drop_last()[i] == inputs[i]);
        requested_blocks_are_tagged(rows, inputs.drop_last(), at_ms, i);
    }
}

/// Appending a tag makes its number the largest where it exceeds the largest so far.
pub proof fn max_tag_push(rows: Seq<McTagRowModel>, t: McTagRowModel)
    requires
        rows.len() == 0 || t.tag_number >= max_tag(rows),
    ensures
        max_tag(rows.push(t)) == t.tag_number,
{
    assert(rows.push(t).drop_last() =~= rows);
}

/// Fresh tags are numbered without gaps behind the largest number in use.
pub proof fn fresh_tags_are_consecutive(
    rows: Seq<McTagRowModel>,
    inputs: Seq<TagMintInputModel>,
    at_ms: i64,
    k: int,
)
    requires
        mint_failure(rows, inputs, at_ms) is None,
        rows.len() <= k < tags_after(rows, inputs, at_ms).len(),
    ensures
        tags_after(rows, inputs, at_ms)[k].tag_number == max_tag(rows) + 1 + (k - rows.len()),
    decreases inputs.len(),
{
    let after = tags_after(rows, inputs, at_ms);
    if inputs.len() > 0 {
        let before = tags_after(rows, inputs.drop_last(), at_ms);
        tags_keep_their_numbers(rows, inputs.drop_last(), at_ms, Seq::empty());
        if k < before.len() {
            fresh_tags_are_consecutive(rows, inputs.drop_last(), at_ms, k);
        } else {
            max_tag_after(rows, inputs.drop_last(), at_ms);
        }
    }
}

proof fn max_tag_after(rows: Seq<McTagRowModel>, inputs: Seq<TagMintInputModel>, at_ms: i64)
    requires
        mint_failure(rows, inputs, at_ms) is None,
    ensures
        rows.len() <= tags_after(rows, inputs, at_ms).len(),
        max_tag(tags_after(rows, inputs, at_ms)) == max_tag(rows) + (tags_after(
            rows,
            inputs,
            at_ms,
        ).len() - rows.len()),
    decreases inputs.len(),
{
    if inputs.len() > 0 {
        let before = tags_after(rows, inputs.drop_last(), at_ms);
        max_tag_after(rows, inputs.drop_last(), at_ms);
        let block = trimmed(inputs.last().block_id);
        if !(block.len() == 0 || tag_of(before, block) is Some) {
            max_tag_push(before, new_tag(before, inputs.last(), at_ms));
        }
    }
}

/// Seeing the same blocks again mints nothing.
pub proof fn minting_again_adds_nothing(
    rows: Seq<McTagRowModel>,
    inputs: Seq<TagMintInputModel>,
    at_ms: i64,
    later_ms: i64,
)
    ensures
        tags_after(tags_after(rows, inputs, at_ms), inputs, later_ms) == tags_after(
            rows,
            inputs,
            at_ms,
        ),
{
    let tagged = tags_after(rows, inputs, at_ms);
    assert forall|i: int|
        0 <= i < inputs.len() && trimmed((#[trigger] inputs[i]).block_id).len() > 0 implies tag_of(
        tagged,
        trimmed(inputs[i].block_id),
    ) is Some by {
        requested_blocks_are_tagged(rows, inputs, at_ms, i);
    }
    all_tagged_mints_nothing(tagged, inputs, later_ms);
}

proof fn all_tagged_mints_nothing(
    rows: Seq<McTagRowModel>,
    inputs: Seq<TagMintInputModel>,
    at_ms: i64,
)
    requires
        forall|i: int|
            0 <= i < inputs.len() && trimmed((#[trigger] inputs[i]).block_id).len() > 0 ==> tag_of(
                rows,
                trimmed(inputs[i].block_id),
            ) is Some,
    ensures
        tags_after(rows, inputs, at_ms) == rows,
    decreases inputs.len(),
{
    if inputs.len() > 0 {
        let less = inputs.drop_last();
        assert forall|i: int|
            0 <= i < less.len() && trimmed((#[trigger] less[i]).block_id).len() > 0 implies tag_of(
            rows,
            trimmed(less[i].block_id),
        ) is Some by {
            assert(less[i] == inputs[i]);
        }
        all_tagged_mints_nothing(rows, less, at_ms);
        assert(inputs.last() == inputs[inputs.len() - 1]);
    }
}

/// The order of tags: by number.
pub struct TagOrder;

impl RowOrder<McTagRow> for TagOrder {
    open spec fn le(a: McTagRowModel, b: McTagRowModel) -> bool {
        a.tag_number <= b.tag_number
    }

    proof fn le_total(a: McTagRowModel, b: McTagRowModel) {
    }

    proof fn le_transitive(a: McTagRowModel, b: McTagRowModel, c: McTagRowModel) {
    }

    fn at_most(a: &McTagRow, b: &McTagRow) -> (r: bool) {
        a.tag_number <= b.tag_number
    }
}

fn find_tag(rows: &Vec<McTagRow>, block: &str) -> (r: Option<usize>)
    ensures
        match r {
            Some(i) => i < rows.len() && tag_of(views(rows@), block@) == Some(rows@[i as int]@),
            None => tag_of(views(rows@), block@) is None,
        },
{
    broadcast use group_views;

    let mut i: usize = 0;
    while i < rows.len()
        invariant
            i <= rows.len(),
            tag_of(views(rows@).take(i as int), block@) is None,
        decreases rows.len() - i,
    {
        proof {
            take_next(views(rows@), i as int);
        }
        if same_text(&rows[i].block_id, block) {
            proof {
                tag_of_prefix(views(rows@), i + 1, block@);
            }
            return Some(i);
        }
        i += 1;
    }
    proof {
        take_all(views(rows@));
    }
    None
}

proof fn tag_of_prefix(rows: Seq<McTagRowModel>, n: int, block: Seq<char>)
    requires
        0 <= n <= rows.len(),
        tag_of(rows.take(n), block) is Some,
    ensures
        tag_of(rows, block) == tag_of(rows.take(n), block),
    decreases rows.len() - n,
{
    if n < rows.len() {
        take_next(rows, n);
        tag_of_stays(rows.take(n), rows[n], block);
        tag_of_prefix(rows, n + 1, block);
    } else {
        take_all(rows);
    }
}

fn largest_tag(rows: &Vec<McTagRow>) -> (r: i64)
    ensures
        r == max_tag(views(rows@)),
{
    broadcast use group_views;

    if rows.len() == 0 {
        return 0;
    }
    let mut largest: i64 = rows[0].tag_number;
    let mut i: usize = 1;
    assert(views(rows@).take(1)[0] == views(rows@)[0]);
    while i < rows.len()
        invariant
            1 <= i <= rows.len(),
            largest == max_tag(views(rows@).take(i as int)),
        decreases rows.len() - i,
    {
        proof {
            take_next(views(rows@), i as int);
        }
        if rows[i].tag_number > largest {
            largest = rows[i].tag_number;
        }
        i += 1;
    }
    proof {
        take_all(views(rows@));
    }
    largest
}

fn is_taggable(kind: &str) -> (r: bool)
    ensures
        r == taggable(kind@),
{
    same_text(kind, "message") || same_text(kind, "tool_call") || same_text(kind, "tool_result")
}

impl McStore {
    /// Gives every block that has no tag the next number, and returns the tags of all
    /// requested blocks.
    pub fn mint_or_get_tags(
        &mut self,
        session_id: &str,
        inputs: &[TagMintInput],
        created_at_ms: i64,
    ) -> (r: Result<Vec<McTagRow>, McStoreError>)
        ensures
            ({
                let rows = of_session(old(self)@.tags, session_id@);
                let wanted = views(inputs@);
                let after = tags_after(rows, wanted, created_at_ms);
                match r {
                    Ok(out) => {
                        &&& mint_failure(rows, wanted, created_at_ms) is None
                        &&& views(out@) == requested_tags(after, wanted)
                        &&& final(self)@ == (McStoreModel {
                            tags: old(self)@.tags + keyed_all(
                                session_id@,
                                after.skip(rows.len() as int),
                            ),
                            ..old(self)@
                        })
                    },
                    Err(e) => {
                        &&& mint_failure(rows, wanted, created_at_ms) matches Some(why) && e
                            == McStoreError::Store(why)
                        &&& final(self)@ == old(self)@
                    },
                }
            }),
            well_formed(old(self)@) ==> well_formed(final(self)@),
            commands_kept(old(self)@, final(self)@),
    {
        broadcast use group_views;

        let ghost wanted = views(inputs@);
        let mut all = session_rows(&self.tags, session_id);
        let ghost rows = views(all@);
        let mut added: Vec<McTagRow> = Vec::new();
        let mut i: usize = 0;
        assert(rows.skip(rows.len() as int) =~= Seq::empty());
        while i < inputs.len()
            invariant
                i <= inputs.len(),
                wanted == views(inputs@),
                self@ == old(self)@,
                rows == of_session(old(self)@.tags, session_id@),
                views(all@) == tags_after(rows, wanted.take(i as int), created_at_ms),
                mint_failure(rows, wanted.take(i as int), created_at_ms) is None,
                rows.len() <= all.len(),
                views(added@) == views(all@).skip(rows.len() as int),
            decreases inputs.len() - i,
        {
            proof {
                take_next(wanted, i as int);
            }
            let block = trim(&inputs[i].block_id);
            if !block.is_empty() && find_tag(&all, block).is_none() {
                let largest = largest_tag(&all);
                if largest == i64::MAX {
                    proof {
                        mint_failure_prefix(rows, wanted, created_at_ms, i + 1);
                    }
                    return Err(McStoreError::Store(StoreError::Exhausted));
                }
                if !is_taggable(&inputs[i].kind) {
                    proof {
                        mint_failure_prefix(rows, wanted, created_at_ms, i + 1);
                    }
                    return Err(McStoreError::Store(StoreError::Constraint));
                }
                let row = McTagRow {
                    tag_number: largest + 1,
                    block_id: block.to_owned(),
                    kind: inputs[i].kind.clone(),
                    token_count: if inputs[i].token_count < 0 {
                        0
                    } else {
                        inputs[i].token_count
                    },
                    created_at_ms,
                    source_bytes: list_dup(&inputs[i].source_bytes),
                };
                let ghost all0 = views(all@);
                added.push(row.dup());
                all.push(row);
                assert(views(all@).skip(rows.len() as int) =~= all0.skip(rows.len() as int).push(
                    row@,
                ));
            }
            i += 1;
        }
        proof {
            take_all(wanted);
        }
        let out = read_tags(&all, inputs, Ghost(rows), created_at_ms);
        append_session(&mut self.tags, session_id, added);
        proof {
            if well_formed(old(self)@) {
                tags_kept(old(self)@, session_id@, wanted, created_at_ms);
            }
        }
        Ok(out)
    }

    /// Reads the tags of a session by number.
    pub fn load_tags_for_session(&self, session_id: &str) -> (r: Vec<McTagRow>)
        ensures
            views(r@) == sorted::<McTagRow, TagOrder>(of_session(self@.tags, session_id@)),
    {
        sort_rows::<McTagRow, TagOrder>(session_rows(&self.tags, session_id))
    }

    /// Adds up the token counts of a set of blocks.
    pub fn sum_tag_token_counts_for_blocks(&self, session_id: &str, block_ids: &[String]) -> (r:
        i64)
        requires
            token_sum(of_session(self@.tags, session_id@), views(block_ids@)) <= i64::MAX,
        ensures
            r == token_sum(of_session(self@.tags, session_id@), views(block_ids@)),
    {
        broadcast use group_views;

        let rows = session_rows(&self.tags, session_id);
        let ghost all = views(rows@);
        let ghost wanted = views(block_ids@);
        let mut total: i64 = 0;
        let mut i: usize = 0;
        while i < rows.len()
            invariant
                i <= rows.len(),
                all == views(rows@),
                wanted == views(block_ids@),
                token_sum(all, wanted) <= i64::MAX,
                total == token_sum(all.take(i as int), wanted),
            decreases rows.len() - i,
        {
            proof {
                take_next(all, i as int);
                token_sum_grows(all, i + 1, wanted);
            }
            if slice_names(block_ids, &rows[i].block_id) && rows[i].token_count > 0 {
                total = total + rows[i].token_count;
            }
            i += 1;
        }
        proof {
            take_all(all);
        }
        total
    }
}

/// The sum of the token counts of the rows whose block is in `blocks`.
pub open spec fn token_sum(rows: Seq<McTagRowModel>, blocks: Seq<Seq<char>>) -> int
    decreases rows.len(),
{
    if rows.len() == 0 {
        0
    } else {
        token_sum(rows.drop_last(), blocks) + (if blocks.contains(rows.last().block_id) {
            non_negative(rows.last().token_count) as int
        } else {
            0
        })
    }
}

proof fn token_sum_grows(rows: Seq<McTagRowModel>, n: int, blocks: Seq<Seq<char>>)
    requires
        0 <= n <= rows.len(),
    ensures
        0 <= token_sum(rows.take(n), blocks) <= token_sum(rows, blocks),
    decreases rows.len(), n,
{
    if rows.len() > 0 {
        if n < rows.len() {
            token_sum_grows(rows.drop_last(), n, blocks);
            assert(rows.drop_last().take(n) =~= rows.take(n));
        } else {
            take_all(rows);
            token_sum_grows(rows.drop_last(), n - 1, blocks);
        }
    } else {
        take_all(rows);
    }
}

proof fn mint_failure_prefix(
    rows: Seq<McTagRowModel>,
    inputs: Seq<TagMintInputModel>,
    at_ms: i64,
    n: int,
)
    requires
        0 <= n <= inputs.len(),
        mint_failure(rows, inputs.take(n), at_ms) is Some,
    ensures
        mint_failure(rows, inputs, at_ms) == mint_failure(rows, inputs.take(n), at_ms),
    decreases inputs.len() - n,
{
    if n < inputs.len() {
        take_next(inputs, n);
        mint_failure_prefix(rows, inputs, at_ms, n + 1);
    } else {
        take_all(inputs);
    }
}

fn read_tags(
    all: &Vec<McTagRow>,
    inputs: &[TagMintInput],
    Ghost(rows): Ghost<Seq<McTagRowModel>>,
    at_ms: i64,
) -> (out: Vec<McTagRow>)
    requires
        views(all@) == tags_after(rows, views(inputs@), at_ms),
    ensures
        views(out@) == requested_tags(views(all@), views(inputs@)),
{
    broadcast use group_views;

    let ghost wanted = views(inputs@);
    let mut out: Vec<McTagRow> = Vec::new();
    let mut i: usize = 0;
    while i < inputs.len()
        invariant
            i <= inputs.len(),
            wanted == views(inputs@),
            views(all@) == tags_after(rows, wanted, at_ms),
            views(out@) == requested_tags(views(all@), wanted.take(i as int)),
        decreases inputs.len() - i,
    {
        proof {
            take_next(wanted, i as int);
        }
        let block = trim(&inputs[i].block_id);
        if !block.is_empty() {
            proof {
                requested_blocks_are_tagged(rows, wanted, at_ms, i as int);
            }
            if let Some(k) = find_tag(all, block) {
                out.push(all[k].dup());
            }
        }
        i += 1;
    }
    proof {
        take_all(wanted);
    }
    out
}

} // verus!
