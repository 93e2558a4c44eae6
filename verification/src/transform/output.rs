//! The output of a pass: the frozen head blocks, the tail and the todo pair.

use vstd::prelude::*;

use crate::meta::{CoreState, CoreStateModel, ModuleMeta, ModuleMetaModel};
use crate::rows::{
    find_row, find_where, first_where, first_where_first, first_where_is, group_views, opt_dup,
    opt_view, take_all, take_next, views, Row, RowTest,
};
use crate::text::same_text;
use crate::transform::errors::{TransformError, TransformErrorModel};
use crate::transform::reductions::{
    frozen_payload, frozen_red_payload, is_tail, unit_keyed, UnitKeyed,
};
use crate::transform::todo::{tail_message, tail_names};
use crate::transform::types::{
    CkIngressMessage, CkIngressMessageModel, FlatBlock, FlatBlockModel, FlatProjection,
    ReducedBlock, ReducedBlockModel,
};
use crate::wire::{
    bare_block, synthetic_user, CkKind, CkKindModel, CkWireBlock, CkWireBlockModel, CkWireMessage,
    CkWireMessageModel,
};

verus! {

// --- the head -------------------------------------------------------------------------

/// The message of a frozen unit, if the unit is there.
pub open spec fn unit_message(core: CoreStateModel, key: Seq<char>) -> Seq<CkWireMessageModel> {
    match find_where(core.frozen_units, unit_keyed(key)) {
        Some(u) => seq![synthetic_user(u.frozen_payload)],
        None => Seq::empty(),
    }
}

/// The messages that stand for the covered history.
pub open spec fn head_messages(core: CoreStateModel) -> Seq<CkWireMessageModel> {
    unit_message(core, "m0"@) + unit_message(core, "m1"@)
}

fn push_unit(out: &mut Vec<CkWireMessage>, core: &CoreState, key: &str)
    ensures
        views(final(out)@) == views(old(out)@) + unit_message(core@, key@),
{
    broadcast use group_views;

    match find_row(&core.frozen_units, &UnitKeyed { key }) {
        Some(at) => {
            let m = CkWireMessage::synthetic_user_text(core.frozen_units[at].frozen_payload.clone());
            let ghost before = views(out@);
            out.push(m);
            assert(before.push(m@) =~= before + seq![m@]);
        },
        None => {
            assert(views(out@) + Seq::<CkWireMessageModel>::empty() =~= views(out@));
        },
    }
}

// --- the todo pair --------------------------------------------------------------------

/// The two messages of the todo pair.
pub open spec fn pair_messages(meta: ModuleMetaModel) -> Seq<CkWireMessageModel> {
    match meta.synthetic_todo {
        Some(pair) => seq![pair.assistant_msg, pair.tool_msg],
        None => Seq::empty(),
    }
}

/// Puts the two messages of the todo pair.
pub fn push_synthetic_todo_pair(out: &mut Vec<CkWireMessage>, meta: &ModuleMeta)
    ensures
        views(final(out)@) == views(old(out)@) + pair_messages(meta@),
{
    broadcast use group_views;

    let ghost before = views(out@);
    match &meta.synthetic_todo {
        Some(pair) => {
            out.push(pair.assistant_msg.dup());
            out.push(pair.tool_msg.dup());
            assert(views(out@) =~= before + pair_messages(meta@));
        },
        None => {
            assert(before + Seq::<CkWireMessageModel>::empty() =~= before);
        },
    }
}

/// The message that the pair follows.
pub open spec fn pair_anchor(meta: ModuleMetaModel) -> Option<Seq<char>> {
    match meta.synthetic_todo {
        Some(pair) => pair.anchor_mid,
        None => None,
    }
}

/// Whether the pair follows the head.
pub open spec fn pair_at_head(meta: ModuleMetaModel) -> bool {
    meta.synthetic_todo matches Some(pair) && pair.anchor_mid is None
}

// --- the tail -------------------------------------------------------------------------

/// The shorter form of a block.
pub open spec fn rendering(reduced: Seq<ReducedBlockModel>, id: Seq<char>) -> Option<
    CkWireBlockModel,
> {
    match find_where(reduced, |r: ReducedBlockModel| r.id == id) {
        Some(r) => Some(r.wire),
        None => None,
    }
}

/// A block of a message that carries a frozen reduction.
pub open spec fn reduced_in(core: CoreStateModel, mid: Seq<char>, b: FlatBlockModel) -> bool {
    b.mid == mid && frozen_payload(core, b.id) is Some
}

/// Whether a block of the message carries a frozen reduction.
pub open spec fn is_reduced(
    core: CoreStateModel,
    blocks: Seq<FlatBlockModel>,
    mid: Seq<char>,
) -> bool {
    exists|i: int| 0 <= i < blocks.len() && reduced_in(core, mid, #[trigger] blocks[i])
}

/// The content of a message with its reduced blocks in their shorter form. A reduction
/// without a shorter form, or of a block that the content does not have, changes nothing.
pub open spec fn reduced_content(
    content: Seq<CkWireBlockModel>,
    core: CoreStateModel,
    blocks: Seq<FlatBlockModel>,
    reduced: Seq<ReducedBlockModel>,
    mid: Seq<char>,
) -> Seq<CkWireBlockModel>
    decreases blocks.len(),
{
    if blocks.len() == 0 {
        content
    } else {
        let rest = reduced_content(content, core, blocks.drop_last(), reduced, mid);
        let b = blocks.last();
        if reduced_in(core, mid, b) && (b.block_index as int) < rest.len() {
            match rendering(reduced, b.id) {
                Some(w) => rest.update(b.block_index as int, w),
                None => rest,
            }
        } else {
            rest
        }
    }
}

/// A message of the tail as it goes out.
pub open spec fn tail_form(
    m: CkIngressMessageModel,
    core: CoreStateModel,
    blocks: Seq<FlatBlockModel>,
    reduced: Seq<ReducedBlockModel>,
) -> CkWireMessageModel {
    if is_reduced(core, blocks, m.mid) {
        CkWireMessageModel {
            content: reduced_content(m.ck.content, core, blocks, reduced, m.mid),
            ..m.ck.modified()
        }
    } else {
        m.ck
    }
}

/// The tail as it goes out, with the todo pair behind the message that it follows.
pub open spec fn tail_output(
    messages: Seq<CkIngressMessageModel>,
    core: CoreStateModel,
    meta: ModuleMetaModel,
    blocks: Seq<FlatBlockModel>,
    reduced: Seq<ReducedBlockModel>,
) -> Seq<CkWireMessageModel>
    decreases messages.len(),
{
    if messages.len() == 0 {
        Seq::empty()
    } else {
        let rest = tail_output(messages.drop_last(), core, meta, blocks, reduced);
        let m = messages.last();
        if !tail_message(m, meta.coverage_ordinal) {
            rest
        } else {
            let with = rest.push(tail_form(m, core, blocks, reduced));
            if pair_anchor(meta) == Some(m.mid) {
                with + pair_messages(meta)
            } else {
                with
            }
        }
    }
}

/// The output of a pass before the serializer's own rules.
pub open spec fn spliced(
    core: CoreStateModel,
    meta: ModuleMetaModel,
    messages: Seq<CkIngressMessageModel>,
    blocks: Seq<FlatBlockModel>,
    reduced: Seq<ReducedBlockModel>,
) -> Seq<CkWireMessageModel> {
    head_messages(core) + (if pair_at_head(meta) {
        pair_messages(meta)
    } else {
        Seq::empty()
    }) + tail_output(messages, core, meta, blocks, reduced)
}

/// The output of a pass.
pub open spec fn output_of(
    core: CoreStateModel,
    meta: ModuleMetaModel,
    messages: Seq<CkIngressMessageModel>,
    blocks: Seq<FlatBlockModel>,
    reduced: Seq<ReducedBlockModel>,
    strips_reasoning: bool,
) -> Result<Seq<CkWireMessageModel>, TransformErrorModel> {
    match pair_anchor(meta) {
        Some(mid) if !tail_names(messages, meta.coverage_ordinal, mid) => Err(
            TransformErrorModel::SyntheticTodoAnchorMissing(mid),
        ),
        _ => {
            let out = spliced(core, meta, messages, blocks, reduced);
            Ok(
                if strips_reasoning {
                    stripped(out)
                } else {
                    out
                },
            )
        },
    }
}

proof fn tail_grows(
    core: CoreStateModel,
    meta: ModuleMetaModel,
    messages: Seq<CkIngressMessageModel>,
    more: Seq<CkIngressMessageModel>,
    blocks: Seq<FlatBlockModel>,
    reduced: Seq<ReducedBlockModel>,
)
    ensures
        spliced(core, meta, messages, blocks, reduced).is_prefix_of(
            spliced(core, meta, messages + more, blocks, reduced),
        ),
    decreases more.len(),
{
    let short = spliced(core, meta, messages, blocks, reduced);
    if more.len() == 0 {
        assert(messages + more =~= messages);
    } else {
        tail_grows(core, meta, messages, more.drop_last(), blocks, reduced);
        let longer = spliced(core, meta, messages + more.drop_last(), blocks, reduced);
        let all = spliced(core, meta, messages + more, blocks, reduced);
        assert((messages + more).drop_last() =~= messages + more.drop_last());
        assert((messages + more).last() == more.last());
        assert(longer.is_prefix_of(all));
        assert(short.is_prefix_of(all)) by {
            assert(short =~= longer.subrange(0, short.len() as int));
            assert(longer =~= all.subrange(0, longer.len() as int));
            assert(short =~= all.subrange(0, short.len() as int));
        }
    }
}

/// Whether blocks belong to none of some messages.
pub open spec fn blocks_elsewhere(
    blocks: Seq<FlatBlockModel>,
    messages: Seq<CkIngressMessageModel>,
) -> bool {
    forall|i: int, j: int|
        0 <= i < blocks.len() && 0 <= j < messages.len() ==> (#[trigger] blocks[i]).mid != (
        #[trigger] messages[j]).mid
}

/// Whether shorter forms belong to none of some blocks.
pub open spec fn forms_elsewhere(
    reduced: Seq<ReducedBlockModel>,
    blocks: Seq<FlatBlockModel>,
) -> bool {
    forall|i: int, j: int|
        0 <= i < reduced.len() && 0 <= j < blocks.len() ==> (#[trigger] reduced[i]).id != (
        #[trigger] blocks[j]).id
}

proof fn form_stays(reduced: Seq<ReducedBlockModel>, more: Seq<ReducedBlockModel>, id: Seq<char>)
    requires
        forall|i: int| 0 <= i < more.len() ==> (#[trigger] more[i]).id != id,
    ensures
        rendering(reduced + more, id) == rendering(reduced, id),
{
    let p = |r: ReducedBlockModel| r.id == id;
    let all = reduced + more;
    first_where_first(all, p);
    first_where_first(reduced, p);
    match first_where(all, p) {
        Some(i) => {
            if i >= reduced.len() {
                assert(more[i - reduced.len()].id != id);
            }
            assert forall|j: int| 0 <= j < i implies !p(#[trigger] reduced[j]) by {
                assert(!p(all[j]));
            }
            first_where_is(reduced, p, i);
        },
        None => {
            match first_where(reduced, p) {
                Some(j) => {
                    assert(!p(all[j]));
                },
                None => {},
            }
        },
    }
}

proof fn content_stays(
    content: Seq<CkWireBlockModel>,
    core: CoreStateModel,
    blocks: Seq<FlatBlockModel>,
    reduced: Seq<ReducedBlockModel>,
    more: Seq<ReducedBlockModel>,
    mid: Seq<char>,
)
    requires
        forms_elsewhere(more, blocks),
    ensures
        reduced_content(content, core, blocks, reduced + more, mid) == reduced_content(
            content,
            core,
            blocks,
            reduced,
            mid,
        ),
    decreases blocks.len(),
{
    if blocks.len() > 0 {
        let rest = blocks.drop_last();
        assert forall|i: int, j: int|
            0 <= i < more.len() && 0 <= j < rest.len() implies (#[trigger] more[i]).id != (
        #[trigger] rest[j]).id by {
            assert(rest[j] == blocks[j]);
        }
        content_stays(content, core, rest, reduced, more, mid);
        assert forall|i: int| 0 <= i < more.len() implies (#[trigger] more[i]).id
            != blocks.last().id by {
            assert(more[i].id != blocks[blocks.len() - 1].id);
        }
        form_stays(reduced, more, blocks.last().id);
    }
}

proof fn content_grows(
    content: Seq<CkWireBlockModel>,
    core: CoreStateModel,
    blocks: Seq<FlatBlockModel>,
    more: Seq<FlatBlockModel>,
    reduced: Seq<ReducedBlockModel>,
    mid: Seq<char>,
)
    requires
        forall|i: int| 0 <= i < more.len() ==> (#[trigger] more[i]).mid != mid,
    ensures
        reduced_content(content, core, blocks + more, reduced, mid) == reduced_content(
            content,
            core,
            blocks,
            reduced,
            mid,
        ),
        is_reduced(core, blocks + more, mid) == is_reduced(core, blocks, mid),
    decreases more.len(),
{
    let all = blocks + more;
    if is_reduced(core, all, mid) {
        let i = choose|i: int| 0 <= i < all.len() && reduced_in(core, mid, #[trigger] all[i]);
        if i >= blocks.len() {
            assert(more[i - blocks.len()].mid != mid);
        }
        assert(reduced_in(core, mid, blocks[i]));
    }
    if is_reduced(core, blocks, mid) {
        let i = choose|i: int| 0 <= i < blocks.len() && reduced_in(core, mid, #[trigger] blocks[i]);
        assert(reduced_in(core, mid, all[i]));
    }
    if more.len() == 0 {
        assert(all =~= blocks);
    } else {
        let rest = more.drop_last();
        assert forall|i: int| 0 <= i < rest.len() implies (#[trigger] rest[i]).mid != mid by {
            assert(rest[i] == more[i]);
        }
        content_grows(content, core, blocks, rest, reduced, mid);
        assert(all.drop_last() =~= blocks + rest);
        assert(all.last() == more[more.len() - 1]);
    }
}

proof fn tail_stays(
    messages: Seq<CkIngressMessageModel>,
    core: CoreStateModel,
    meta: ModuleMetaModel,
    blocks: Seq<FlatBlockModel>,
    more_blocks: Seq<FlatBlockModel>,
    reduced: Seq<ReducedBlockModel>,
    more_reduced: Seq<ReducedBlockModel>,
)
    requires
        blocks_elsewhere(more_blocks, messages),
        forms_elsewhere(more_reduced, blocks),
    ensures
        tail_output(messages, core, meta, blocks + more_blocks, reduced + more_reduced)
            == tail_output(messages, core, meta, blocks, reduced),
    decreases messages.len(),
{
    if messages.len() > 0 {
        let rest = messages.drop_last();
        let m = messages.last();
        assert forall|i: int, j: int|
            0 <= i < more_blocks.len() && 0 <= j < rest.len() implies (#[trigger] more_blocks[i]).mid
            != (#[trigger] rest[j]).mid by {
            assert(rest[j] == messages[j]);
        }
        tail_stays(rest, core, meta, blocks, more_blocks, reduced, more_reduced);
        assert forall|i: int| 0 <= i < more_blocks.len() implies (#[trigger] more_blocks[i]).mid
            != m.mid by {
            assert(more_blocks[i].mid != messages[messages.len() - 1].mid);
        }
        content_grows(m.ck.content, core, blocks, more_blocks, reduced + more_reduced, m.mid);
        content_stays(m.ck.content, core, blocks, reduced, more_reduced, m.mid);
    }
}

proof fn stripping_keeps_prefixes(a: Seq<CkWireMessageModel>, b: Seq<CkWireMessageModel>)
    requires
        a.is_prefix_of(b),
    ensures
        stripped(a).is_prefix_of(stripped(b)),
{
    assert forall|i: int| 0 <= i < a.len() implies stripped_message(a, i) == stripped_message(
        b,
        i,
    ) by {
        assert(a[i] == b[i]);
        if i > 0 {
            assert(a[i - 1] == b[i - 1]);
        }
    }
    assert(stripped(a) =~= stripped(b).subrange(0, a.len() as int));
}

/// A growing conversation leaves what went out before as it was: where messages come in
/// behind those that were there, with blocks and shorter forms of their own, and neither the
/// frozen units nor the coverage nor the todo pair changed, there is an output again, and it
/// begins with the output before.
pub proof fn output_grows_at_its_end(
    core: CoreStateModel,
    meta: ModuleMetaModel,
    messages: Seq<CkIngressMessageModel>,
    more: Seq<CkIngressMessageModel>,
    blocks: Seq<FlatBlockModel>,
    more_blocks: Seq<FlatBlockModel>,
    reduced: Seq<ReducedBlockModel>,
    more_reduced: Seq<ReducedBlockModel>,
    strips_reasoning: bool,
)
    requires
        blocks_elsewhere(more_blocks, messages),
        forms_elsewhere(more_reduced, blocks),
        output_of(core, meta, messages, blocks, reduced, strips_reasoning) is Ok,
    ensures
        ({
            let before = output_of(core, meta, messages, blocks, reduced, strips_reasoning);
            let after = output_of(
                core,
                meta,
                messages + more,
                blocks + more_blocks,
                reduced + more_reduced,
                strips_reasoning,
            );
            &&& after is Ok
            &&& before->Ok_0.is_prefix_of(after->Ok_0)
        }),
{
    let all_blocks = blocks + more_blocks;
    let all_reduced = reduced + more_reduced;
    if let Some(mid) = pair_anchor(meta) {
        let i = choose|i: int|
            0 <= i < messages.len() && (#[trigger] messages[i]).mid == mid && tail_message(
                messages[i],
                meta.coverage_ordinal,
            );
        assert((messages + more)[i] == messages[i]);
        assert(tail_names(messages + more, meta.coverage_ordinal, mid));
    }
    tail_stays(messages, core, meta, blocks, more_blocks, reduced, more_reduced);
    let short = spliced(core, meta, messages, blocks, reduced);
    let long = spliced(core, meta, messages + more, all_blocks, all_reduced);
    assert(short == spliced(core, meta, messages, all_blocks, all_reduced));
    tail_grows(core, meta, messages, more, all_blocks, all_reduced);
    assert(short.is_prefix_of(long));
    stripping_keeps_prefixes(short, long);
}

proof fn tail_reads_two_fields(
    messages: Seq<CkIngressMessageModel>,
    core: CoreStateModel,
    meta: ModuleMetaModel,
    other: ModuleMetaModel,
    blocks: Seq<FlatBlockModel>,
    reduced: Seq<ReducedBlockModel>,
)
    requires
        meta.coverage_ordinal == other.coverage_ordinal,
        meta.synthetic_todo == other.synthetic_todo,
    ensures
        tail_output(messages, core, meta, blocks, reduced) == tail_output(
            messages,
            core,
            other,
            blocks,
            reduced,
        ),
    decreases messages.len(),
{
    if messages.len() > 0 {
        tail_reads_two_fields(messages.drop_last(), core, meta, other, blocks, reduced);
    }
}

/// Of the record of a session an output depends on the coverage and the todo pair alone.
pub proof fn output_reads_two_fields(
    core: CoreStateModel,
    meta: ModuleMetaModel,
    other: ModuleMetaModel,
    messages: Seq<CkIngressMessageModel>,
    blocks: Seq<FlatBlockModel>,
    reduced: Seq<ReducedBlockModel>,
    strips_reasoning: bool,
)
    requires
        meta.coverage_ordinal == other.coverage_ordinal,
        meta.synthetic_todo == other.synthetic_todo,
    ensures
        output_of(core, meta, messages, blocks, reduced, strips_reasoning) == output_of(
            core,
            other,
            messages,
            blocks,
            reduced,
            strips_reasoning,
        ),
{
    tail_reads_two_fields(messages, core, meta, other, blocks, reduced);
}

/// Without a todo pair the output is the head and the tail, one message for each of the
/// tail.
pub proof fn output_holds_the_tail(
    core: CoreStateModel,
    meta: ModuleMetaModel,
    messages: Seq<CkIngressMessageModel>,
    blocks: Seq<FlatBlockModel>,
    reduced: Seq<ReducedBlockModel>,
)
    requires
        meta.synthetic_todo is None,
    ensures
        spliced(core, meta, messages, blocks, reduced) == head_messages(core)
            + crate::rows::keep_where(
            messages,
            |m: CkIngressMessageModel| tail_message(m, meta.coverage_ordinal),
        ).map_values(|m: CkIngressMessageModel| tail_form(m, core, blocks, reduced)),
    decreases messages.len(),
{
    let p = |m: CkIngressMessageModel| tail_message(m, meta.coverage_ordinal);
    let g = |m: CkIngressMessageModel| tail_form(m, core, blocks, reduced);
    tail_without_pair(core, meta, messages, blocks, reduced);
    assert(head_messages(core) + Seq::<CkWireMessageModel>::empty() =~= head_messages(core));
}

proof fn tail_without_pair(
    core: CoreStateModel,
    meta: ModuleMetaModel,
    messages: Seq<CkIngressMessageModel>,
    blocks: Seq<FlatBlockModel>,
    reduced: Seq<ReducedBlockModel>,
)
    requires
        meta.synthetic_todo is None,
    ensures
        tail_output(messages, core, meta, blocks, reduced) == crate::rows::keep_where(
            messages,
            |m: CkIngressMessageModel| tail_message(m, meta.coverage_ordinal),
        ).map_values(|m: CkIngressMessageModel| tail_form(m, core, blocks, reduced)),
    decreases messages.len(),
{
    let p = |m: CkIngressMessageModel| tail_message(m, meta.coverage_ordinal);
    let g = |m: CkIngressMessageModel| tail_form(m, core, blocks, reduced);
    if messages.len() == 0 {
        assert(crate::rows::keep_where(messages, p).map_values(g) =~= Seq::empty());
    } else {
        let rest = messages.drop_last();
        tail_without_pair(core, meta, rest, blocks, reduced);
        let kept = crate::rows::keep_where(rest, p);
        if p(messages.last()) {
            assert(kept.push(messages.last()).map_values(g) =~= kept.map_values(g).push(
                g(messages.last()),
            ));
        }
    }
}

/// Accepts the shorter form of a block.
pub struct RenderingOf<'a> {
    pub id: &'a str,
}

impl<'a> RowTest<ReducedBlock> for RenderingOf<'a> {
    open spec fn accepts(&self) -> spec_fn(ReducedBlockModel) -> bool {
        |r: ReducedBlockModel| r.id == self.id@
    }

    fn test(&self, row: &ReducedBlock) -> (r: bool) {
        same_text(&row.id, self.id)
    }
}

fn write_tail_form(
    m: &CkIngressMessage,
    core: &CoreState,
    blocks: &Vec<FlatBlock>,
    reduced: &Vec<ReducedBlock>,
) -> (r: CkWireMessage)
    ensures
        r@ == tail_form(m@, core@, views(blocks@), views(reduced@)),
{
    broadcast use group_views;

    let ghost all = views(blocks@);
    let ghost shorter = views(reduced@);
    let mut touched: bool = false;
    let mut rebuilt = m.ck.dup();
    let ghost given = m@.ck.content;
    let mut i: usize = 0;
    while i < blocks.len()
        invariant
            i <= blocks.len(),
            all == views(blocks@),
            shorter == views(reduced@),
            given == m@.ck.content,
            touched == is_reduced(core@, all.take(i as int), m@.mid),
            rebuilt@ == (CkWireMessageModel {
                content: reduced_content(given, core@, all.take(i as int), shorter, m@.mid),
                ..m@.ck
            }),
        decreases blocks.len() - i,
    {
        let b = &blocks[i];
        let ghost before = all.take(i as int);
        let ghost next = all.take(i + 1);
        proof {
            take_next(all, i as int);
            assert(all[i as int] == b@);
            if is_reduced(core@, before, m@.mid) {
                let k = choose|k: int|
                    0 <= k < before.len() && reduced_in(core@, m@.mid, #[trigger] before[k]);
                assert(next[k] == before[k]);
            }
        }
        if same_text(&b.mid, &m.mid) && frozen_red_payload(core, &b.id).is_some() {
            touched = true;
            assert(next[i as int] == b@);
            assert(reduced_in(core@, m@.mid, next[i as int]));
            if b.block_index < rebuilt.content.len() {
                match find_row(reduced, &RenderingOf { id: &b.id }) {
                    Some(at) => {
                        assert(rendering(shorter, b@.id) == Some(reduced@[at as int].wire@)) by {
                            assert((|r: ReducedBlockModel| r.id == b.id@)
                                =~= (|r: ReducedBlockModel| r.id == b@.id));
                        }
                        rebuilt.content.set(b.block_index, reduced[at].wire.dup());
                    },
                    None => {
                        assert(rendering(shorter, b@.id) is None) by {
                            assert((|r: ReducedBlockModel| r.id == b.id@)
                                =~= (|r: ReducedBlockModel| r.id == b@.id));
                        }
                    },
                }
            }
        } else {
            assert(!reduced_in(core@, m@.mid, b@));
            assert(is_reduced(core@, next, m@.mid) == is_reduced(core@, before, m@.mid)) by {
                if is_reduced(core@, next, m@.mid) {
                    let k = choose|k: int|
                        0 <= k < next.len() && reduced_in(core@, m@.mid, #[trigger] next[k]);
                    assert(k < before.len());
                    assert(before[k] == next[k]);
                }
            }
        }
        i += 1;
    }
    proof {
        take_all(all);
    }
    if touched {
        rebuilt.mark_modified();
        rebuilt
    } else {
        m.ck.dup()
    }
}

/// Assembles the output of a pass.
pub fn build_output(
    core: &CoreState,
    meta: &ModuleMeta,
    projection: &FlatProjection,
    messages: &Vec<CkIngressMessage>,
    reduced: &Vec<ReducedBlock>,
    strips_reasoning: bool,
) -> (r: Result<Vec<CkWireMessage>, TransformError>)
    ensures
        match (r, output_of(
            core@,
            meta@,
            views(messages@),
            projection@.blocks,
            views(reduced@),
            strips_reasoning,
        )) {
            (Ok(out), Ok(wanted)) => views(out@) == wanted,
            (Err(e), Err(fault)) => e@ == fault,
            _ => false,
        },
{
    broadcast use group_views;

    let ghost all = views(messages@);
    let ghost blocks = projection@.blocks;
    let ghost shorter = views(reduced@);
    let mut out: Vec<CkWireMessage> = Vec::new();
    push_unit(&mut out, core, "m0");
    push_unit(&mut out, core, "m1");
    assert(views(out@) =~= head_messages(core@));
    let anchor: Option<String> = match &meta.synthetic_todo {
        Some(pair) => {
            if pair.anchor_mid.is_none() {
                push_synthetic_todo_pair(&mut out, meta);
            }
            opt_dup(&pair.anchor_mid)
        },
        None => None,
    };
    assert(opt_view(anchor) == pair_anchor(meta@));
    let ghost head = views(out@);
    assert(head =~= head_messages(core@) + (if pair_at_head(meta@) {
        pair_messages(meta@)
    } else {
        Seq::empty()
    }));
    let mut inserted: bool = false;
    let mut i: usize = 0;
    assert(head + tail_output(all.take(0), core@, meta@, blocks, shorter) =~= head);
    while i < messages.len()
        invariant
            i <= messages.len(),
            all == views(messages@),
            blocks == projection@.blocks,
            shorter == views(reduced@),
            opt_view(anchor) == pair_anchor(meta@),
            views(out@) == head + tail_output(
                all.take(i as int),
                core@,
                meta@,
                blocks,
                shorter,
            ),
            inserted == (pair_anchor(meta@) matches Some(mid) && tail_names(
                all.take(i as int),
                meta@.coverage_ordinal,
                mid,
            )),
        decreases messages.len() - i,
    {
        let m = &messages[i];
        let ghost before = all.take(i as int);
        let ghost next = all.take(i + 1);
        let ghost sofar = tail_output(before, core@, meta@, blocks, shorter);
        proof {
            take_next(all, i as int);
            assert(all[i as int] == m@);
        }
        if !m.ck.meta.synthetic && is_tail(m.ordinal, meta.coverage_ordinal) {
            let form = write_tail_form(m, core, &projection.blocks, reduced);
            let ghost prior = views(out@);
            out.push(form);
            assert(views(out@) == prior.push(form@));
            assert(prior.push(form@) =~= head + sofar.push(form@));
            let here: bool = match &anchor {
                Some(mid) => same_text(mid, &m.mid),
                None => false,
            };
            if here {
                push_synthetic_todo_pair(&mut out, meta);
                inserted = true;
                assert(next[i as int] == m@);
                assert(tail_names(next, meta@.coverage_ordinal, m@.mid));
                assert(views(out@) =~= head + (sofar.push(form@) + pair_messages(meta@)));
            }
        }
        proof {
            match pair_anchor(meta@) {
                Some(mid) => {
                    if tail_names(before, meta@.coverage_ordinal, mid) {
                        let k = choose|k: int|
                            0 <= k < before.len() && (#[trigger] before[k]).mid == mid
                                && tail_message(before[k], meta@.coverage_ordinal);
                        assert(next[k] == before[k]);
                    }
                    if tail_names(next, meta@.coverage_ordinal, mid) {
                        let k = choose|k: int|
                            0 <= k < next.len() && (#[trigger] next[k]).mid == mid && tail_message(
                                next[k],
                                meta@.coverage_ordinal,
                            );
                        if k < before.len() {
                            assert(before[k] == next[k]);
                        }
                    }
                },
                None => {},
            }
        }
        i += 1;
    }
    proof {
        take_all(all);
    }
    match anchor {
        Some(mid) => {
            if !inserted {
                return Err(TransformError::SyntheticTodoAnchorMissing(mid));
            }
        },
        None => {},
    }
    assert(views(out@) =~= spliced(core@, meta@, all, blocks, shorter));
    if strips_reasoning {
        strip_reasoning_from_merged_assistants(&mut out);
    }
    Ok(out)
}

// --- what is to be shortened ----------------------------------------------------------

/// A request for the shorter form of a block.
#[derive(Debug, PartialEq, Eq)]
pub struct ReductionRequest {
    pub id: String,
    pub payload: String,
    pub file_path: Option<String>,
    pub wire: CkWireBlock,
}

/// What a [`ReductionRequest`] holds.
#[verifier::ext_equal]
pub struct ReductionRequestModel {
    pub id: Seq<char>,
    pub payload: Seq<char>,
    pub file_path: Option<Seq<char>>,
    pub wire: CkWireBlockModel,
}

impl View for ReductionRequest {
    type V = ReductionRequestModel;

    open spec fn view(&self) -> ReductionRequestModel {
        ReductionRequestModel {
            id: self.id@,
            payload: self.payload@,
            file_path: opt_view(self.file_path),
            wire: self.wire@,
        }
    }
}

/// The blocks that carry a frozen reduction, each with its frozen text.
pub open spec fn reductions_to_render(core: CoreStateModel, blocks: Seq<FlatBlockModel>) -> Seq<
    ReductionRequestModel,
>
    decreases blocks.len(),
{
    if blocks.len() == 0 {
        Seq::empty()
    } else {
        let rest = reductions_to_render(core, blocks.drop_last());
        let b = blocks.last();
        match frozen_payload(core, b.id) {
            Some(payload) => rest.push(
                ReductionRequestModel { id: b.id, payload, file_path: b.file_path, wire: b.wire },
            ),
            None => rest,
        }
    }
}

/// Reads the blocks that carry a frozen reduction.
pub fn wanted_reductions(core: &CoreState, projection: &FlatProjection) -> (r: Vec<ReductionRequest>)
    ensures
        views(r@) == reductions_to_render(core@, projection@.blocks),
{
    broadcast use group_views;

    let ghost all = projection@.blocks;
    let mut r: Vec<ReductionRequest> = Vec::new();
    let mut i: usize = 0;
    while i < projection.blocks.len()
        invariant
            i <= projection.blocks.len(),
            all == views(projection.blocks@),
            views(r@) == reductions_to_render(core@, all.take(i as int)),
        decreases projection.blocks.len() - i,
    {
        proof {
            take_next(all, i as int);
        }
        let b = &projection.blocks[i];
        assert(all[i as int] == b@);
        match frozen_red_payload(core, &b.id) {
            Some(payload) => {
                r.push(
                    ReductionRequest {
                        id: b.id.clone(),
                        payload,
                        file_path: opt_dup(&b.file_path),
                        wire: b.wire.dup(),
                    },
                );
            },
            None => {},
        }
        i += 1;
    }
    proof {
        take_all(all);
    }
    r
}

// --- reasoning in merged messages -----------------------------------------------------

/// Whether a block holds reasoning.
pub open spec fn reasoning(b: CkWireBlockModel) -> bool {
    b.kind is Reasoning || b.kind is RedactedReasoning
}

/// Whether a block is an empty text.
pub open spec fn empty_text(b: CkWireBlockModel) -> bool {
    b.kind matches CkKindModel::Text { text } && text.len() == 0
}

/// Tests whether a block holds reasoning.
pub fn is_reasoning_block(block: &CkWireBlock) -> (r: bool)
    ensures
        r == reasoning(block@),
{
    match &block.kind {
        CkKind::Reasoning { text: _, signature: _ } => true,
        CkKind::RedactedReasoning { data: _ } => true,
        _ => false,
    }
}

/// Tests whether a block is an empty text.
pub fn is_empty_text_block(block: &CkWireBlock) -> (r: bool)
    ensures
        r == empty_text(block@),
{
    match &block.kind {
        CkKind::Text { text } => text.as_str().unicode_len() == 0,
        _ => false,
    }
}

/// The place of the reasoning that a message begins with, empty texts apart.
pub open spec fn leading_reasoning(content: Seq<CkWireBlockModel>, from: int) -> Option<int>
    decreases content.len() - from,
{
    if from >= content.len() || from < 0 {
        None
    } else if empty_text(content[from]) {
        leading_reasoning(content, from + 1)
    } else if reasoning(content[from]) {
        Some(from)
    } else {
        None
    }
}

/// An empty text block.
pub open spec fn blank_block() -> CkWireBlockModel {
    bare_block(CkKindModel::Text { text: Seq::empty() })
}

/// A content without reasoning but for the block at `keep`.
pub open spec fn without_reasoning(content: Seq<CkWireBlockModel>, keep: Option<int>) -> Seq<
    CkWireBlockModel,
> {
    Seq::new(
        content.len(),
        |i: int|
            if reasoning(content[i]) && keep != Some(i) {
                blank_block()
            } else {
                content[i]
            },
    )
}

/// How many blocks of reasoning, but for the one at `keep`, the first `n` blocks hold.
pub open spec fn reasoning_count(content: Seq<CkWireBlockModel>, keep: Option<int>, n: int) -> nat
    decreases n,
{
    if n <= 0 {
        0
    } else {
        reasoning_count(content, keep, n - 1) + (if reasoning(content[n - 1]) && keep != Some(
            n - 1,
        ) {
            1nat
        } else {
            0nat
        })
    }
}

/// Whether the message before `i` is the assistant's.
pub open spec fn follows_assistant(messages: Seq<CkWireMessageModel>, i: int) -> bool {
    i > 0 && messages[i - 1].role == "assistant"@
}

/// The reasoning that the message at `i` keeps: what it begins with, where it begins a run
/// of the assistant's messages.
pub open spec fn kept_reasoning(messages: Seq<CkWireMessageModel>, i: int) -> Option<int> {
    if follows_assistant(messages, i) {
        None
    } else {
        leading_reasoning(messages[i].content, 0)
    }
}

/// The message at `i` without the reasoning that a merge of messages would misplace.
pub open spec fn stripped_message(messages: Seq<CkWireMessageModel>, i: int) -> CkWireMessageModel {
    let m = messages[i];
    if m.role != "assistant"@ {
        m
    } else {
        let keep = kept_reasoning(messages, i);
        if reasoning_count(m.content, keep, m.content.len() as int) == 0 {
            m
        } else {
            CkWireMessageModel { content: without_reasoning(m.content, keep), ..m.modified() }
        }
    }
}

/// Messages without the reasoning that a merge of messages would misplace.
pub open spec fn stripped(messages: Seq<CkWireMessageModel>) -> Seq<CkWireMessageModel> {
    Seq::new(messages.len(), |i: int| stripped_message(messages, i))
}

/// How many blocks the first `n` messages lose.
pub open spec fn stripped_count(messages: Seq<CkWireMessageModel>, n: int) -> nat
    decreases n,
{
    if n <= 0 {
        0
    } else {
        stripped_count(messages, n - 1) + (if messages[n - 1].role == "assistant"@ {
            reasoning_count(
                messages[n - 1].content,
                kept_reasoning(messages, n - 1),
                messages[n - 1].content.len() as int,
            )
        } else {
            0
        })
    }
}

proof fn no_reasoning_left(content: Seq<CkWireBlockModel>, keep: Option<int>, n: int)
    requires
        0 <= n <= content.len(),
        reasoning_count(content, keep, n) == 0,
    ensures
        forall|j: int| 0 <= j < n ==> !reasoning(#[trigger] content[j]) || keep == Some(j),
    decreases n,
{
    if n > 0 {
        no_reasoning_left(content, keep, n - 1);
    }
}

proof fn leading_reasoning_leads(content: Seq<CkWireBlockModel>, from: int)
    requires
        0 <= from,
    ensures
        leading_reasoning(content, from) matches Some(k) ==> from <= k < content.len() && reasoning(
            content[k],
        ) && (forall|j: int| from <= j < k ==> empty_text(#[trigger] content[j])),
    decreases content.len() - from,
{
    if from < content.len() && empty_text(content[from]) {
        leading_reasoning_leads(content, from + 1);
    }
}

/// Of a run of the assistant's messages only the first may hold reasoning, at most one block
/// of it, with nothing but empty texts before it. Other messages stay as they are.
pub proof fn a_run_keeps_its_leading_reasoning(messages: Seq<CkWireMessageModel>, i: int, j: int)
    requires
        0 <= i < messages.len(),
        0 <= j < stripped(messages)[i].content.len(),
        messages[i].role == "assistant"@,
        reasoning(stripped(messages)[i].content[j]),
    ensures
        !follows_assistant(messages, i),
        leading_reasoning(messages[i].content, 0) == Some(j),
        forall|k: int| 0 <= k < j ==> empty_text(#[trigger] messages[i].content[k]),
{
    let m = messages[i];
    let keep = kept_reasoning(messages, i);
    if reasoning_count(m.content, keep, m.content.len() as int) == 0 {
        no_reasoning_left(m.content, keep, m.content.len() as int);
        assert(reasoning(m.content[j]));
    }
    leading_reasoning_leads(m.content, 0);
}

fn find_leading_reasoning(content: &Vec<CkWireBlock>) -> (r: Option<usize>)
    ensures
        match r {
            Some(k) => leading_reasoning(views(content@), 0) == Some(k as int),
            None => leading_reasoning(views(content@), 0) is None,
        },
{
    let ghost all = views(content@);
    let mut i: usize = 0;
    while i < content.len()
        invariant
            i <= content.len(),
            all == views(content@),
            leading_reasoning(all, 0) == leading_reasoning(all, i as int),
        decreases content.len() - i,
    {
        assert(all[i as int] == content@[i as int]@);
        if !is_empty_text_block(&content[i]) {
            if is_reasoning_block(&content[i]) {
                return Some(i);
            }
            return None;
        }
        i += 1;
    }
    None
}

fn strip_message(message: &mut CkWireMessage, keep: Option<usize>) -> (n: usize)
    ensures
        ({
            let m = old(message)@;
            let kept = match keep {
                Some(k) => Some(k as int),
                None => None,
            };
            let lost = reasoning_count(m.content, kept, m.content.len() as int);
            &&& n == lost
            &&& final(message)@ == (if lost == 0 {
                m
            } else {
                CkWireMessageModel { content: without_reasoning(m.content, kept), ..m.modified() }
            })
        }),
{
    broadcast use group_views;

    let ghost m = message@;
    let ghost kept: Option<int> = match keep {
        Some(k) => Some(k as int),
        None => None,
    };
    let ghost wanted = without_reasoning(m.content, kept);
    let mut content: Vec<CkWireBlock> = Vec::new();
    let mut n: usize = 0;
    let mut i: usize = 0;
    while i < message.content.len()
        invariant
            i <= message.content.len(),
            message@ == m,
            m.content == views(message.content@),
            wanted == without_reasoning(m.content, kept),
            kept == (match keep {
                Some(k) => Some(k as int),
                None => None,
            }),
            n <= i,
            n == reasoning_count(m.content, kept, i as int),
            views(content@) == wanted.take(i as int),
        decreases message.content.len() - i,
    {
        proof {
            take_next(wanted, i as int);
        }
        let b = &message.content[i];
        assert(m.content[i as int] == b@);
        let stays: bool = match keep {
            Some(k) => k == i,
            None => false,
        };
        if is_reasoning_block(b) && !stays {
            let blank = CkWireBlock::bare(CkKind::Text { text: String::new() });
            assert(blank@ == blank_block());
            content.push(blank);
            n += 1;
        } else {
            content.push(b.dup());
        }
        i += 1;
    }
    proof {
        take_all(wanted);
    }
    if n > 0 {
        message.content = content;
        message.mark_modified();
    }
    n
}

/// Takes out the reasoning that a merge of consecutive messages of the assistant would
/// misplace, and tells how many blocks that were.
pub fn strip_reasoning_from_merged_assistants(messages: &mut Vec<CkWireMessage>) -> (r: usize)
    ensures
        views(final(messages)@) == stripped(views(old(messages)@)),
        r == (if stripped_count(views(old(messages)@), old(messages)@.len() as int) > usize::MAX {
            usize::MAX as nat
        } else {
            stripped_count(views(old(messages)@), old(messages)@.len() as int)
        }),
{
    broadcast use group_views;

    let ghost given = views(messages@);
    let ghost wanted = stripped(given);
    let mut lost: usize = 0;
    let mut prev_assistant: bool = false;
    let mut i: usize = 0;
    while i < messages.len()
        invariant
            i <= messages.len(),
            messages@.len() == given.len(),
            wanted == stripped(given),
            prev_assistant == follows_assistant(given, i as int),
            lost == (if stripped_count(given, i as int) > usize::MAX {
                usize::MAX as nat
            } else {
                stripped_count(given, i as int)
            }),
            forall|j: int|
                0 <= j < given.len() ==> #[trigger] views(messages@)[j] == (if j < i {
                    wanted[j]
                } else {
                    given[j]
                }),
        decreases messages.len() - i,
    {
        let mut m = messages[i].dup();
        assert(m@ == views(messages@)[i as int]);
        assert(m@ == given[i as int]);
        let assistant: bool = same_text(&m.role, "assistant");
        if assistant {
            let keep: Option<usize> = if prev_assistant {
                None
            } else {
                find_leading_reasoning(&m.content)
            };
            let n: usize = strip_message(&mut m, keep);
            assert(m@ == wanted[i as int]);
            lost = if n > usize::MAX - lost {
                usize::MAX
            } else {
                lost + n
            };
            let ghost before = messages@;
            messages.set(i, m);
            assert(views(messages@) =~= views(before).update(i as int, m@));
        }
        prev_assistant = assistant;
        i += 1;
    }
    assert(views(messages@) =~= wanted);
    lost
}

} // verus!
