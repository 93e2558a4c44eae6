//! What goes out of a pass: the frozen head, each message of the tail, and the todo pair.

use vstd::prelude::*;

use crate::meta::{CoreStateModel, ModuleMetaModel};
use crate::rows::{first_where, first_where_first, first_where_is};
use crate::transform::output::{
    empty_text, is_reduced, kept_reasoning, leading_reasoning, output_of, pair_messages,
    reasoning_count, reduced_content, reduced_in, reductions_to_render, rendering, spliced,
    stripped, tail_form, tail_output, ReductionRequestModel,
};
use crate::transform::reductions::{frozen_payload, unit_keyed};
use crate::transform::todo::tail_message;
use crate::transform::types::{CkIngressMessageModel, FlatBlockModel, ReducedBlockModel};
use crate::wire::{CkKindModel, CkWireBlockModel, CkWireMessageModel};

verus! {

// --- reduced blocks -----------------------------------------------------------------------

/// Whether the blocks of a message have places of their own.
pub open spec fn places_differ(blocks: Seq<FlatBlockModel>, mid: Seq<char>) -> bool {
    forall|i: int, j: int|
        0 <= i < j < blocks.len() && (#[trigger] blocks[i]).mid == mid && (#[trigger] blocks[j]).mid
            == mid ==> blocks[i].block_index != blocks[j].block_index
}

/// Whether no block has two shorter forms.
pub open spec fn forms_differ(reduced: Seq<ReducedBlockModel>) -> bool {
    forall|i: int, j: int|
        0 <= i < j < reduced.len() ==> (#[trigger] reduced[i]).id != (#[trigger] reduced[j]).id
}

/// Whether a reduction of a block is frozen.
pub open spec fn reduction_is_frozen(core: CoreStateModel, id: Seq<char>) -> bool {
    exists|u: int|
        0 <= u < core.frozen_units.len() && (#[trigger] core.frozen_units[u]).key == "red:"@ + id
}

/// Whether a block stands at a place of a message, its reduction is frozen, and it has a
/// shorter form.
pub open spec fn shortened_to(
    core: CoreStateModel,
    mid: Seq<char>,
    place: int,
    b: FlatBlockModel,
    form: ReducedBlockModel,
) -> bool {
    &&& b.mid == mid
    &&& b.block_index == place
    &&& reduction_is_frozen(core, b.id)
    &&& form.id == b.id
}

proof fn a_frozen_reduction_has_a_payload(core: CoreStateModel, id: Seq<char>)
    ensures
        reduction_is_frozen(core, id) == (frozen_payload(core, id) is Some),
{
    let key = crate::transform::reductions::RED_KEY_PREFIX@ + id;
    let p = unit_keyed(key);
    reveal_strlit("red:");
    assert(key =~= "red:"@ + id);
    first_where_first(core.frozen_units, p);
    if reduction_is_frozen(core, id) {
        let u = choose|u: int|
            0 <= u < core.frozen_units.len() && (#[trigger] core.frozen_units[u]).key == "red:"@
                + id;
        assert(p(core.frozen_units[u]));
    }
}

proof fn the_form_of_a_block(reduced: Seq<ReducedBlockModel>, id: Seq<char>, k: int)
    requires
        forms_differ(reduced),
        0 <= k < reduced.len(),
        reduced[k].id == id,
    ensures
        rendering(reduced, id) == Some(reduced[k].wire),
{
    let p = |r: ReducedBlockModel| r.id == id;
    assert forall|j: int| 0 <= j < k implies !p(#[trigger] reduced[j]) by {}
    first_where_is(reduced, p, k);
}

proof fn a_form_comes_from_somewhere(reduced: Seq<ReducedBlockModel>, id: Seq<char>) -> (k: int)
    requires
        rendering(reduced, id) is Some,
    ensures
        0 <= k < reduced.len(),
        reduced[k].id == id,
        rendering(reduced, id) == Some(reduced[k].wire),
{
    let p = |r: ReducedBlockModel| r.id == id;
    first_where_first(reduced, p);
    first_where(reduced, p)->0
}

proof fn content_place_by_place(
    content: Seq<CkWireBlockModel>,
    core: CoreStateModel,
    blocks: Seq<FlatBlockModel>,
    reduced: Seq<ReducedBlockModel>,
    mid: Seq<char>,
    place: int,
)
    requires
        places_differ(blocks, mid),
        forms_differ(reduced),
        0 <= place < content.len(),
    ensures
        reduced_content(content, core, blocks, reduced, mid).len() == content.len(),
        forall|i: int, k: int|
            0 <= i < blocks.len() && 0 <= k < reduced.len() && shortened_to(
                core,
                mid,
                place,
                #[trigger] blocks[i],
                #[trigger] reduced[k],
            ) ==> reduced_content(content, core, blocks, reduced, mid)[place] == reduced[k].wire,
        (forall|i: int, k: int|
            0 <= i < blocks.len() && 0 <= k < reduced.len() ==> !shortened_to(
                core,
                mid,
                place,
                #[trigger] blocks[i],
                #[trigger] reduced[k],
            )) ==> reduced_content(content, core, blocks, reduced, mid)[place] == content[place],
    decreases blocks.len(),
{
    if blocks.len() > 0 {
        let less = blocks.drop_last();
        let b = blocks.last();
        let last = blocks.len() - 1;
        assert(blocks[last] == b);
        assert forall|i: int, j: int|
            0 <= i < j < less.len() && (#[trigger] less[i]).mid == mid && (#[trigger] less[j]).mid
                == mid implies less[i].block_index != less[j].block_index by {
            assert(less[i] == blocks[i] && less[j] == blocks[j]);
        }
        content_place_by_place(content, core, less, reduced, mid, place);
        a_frozen_reduction_has_a_payload(core, b.id);
        let rest = reduced_content(content, core, less, reduced, mid);
        let now = reduced_content(content, core, blocks, reduced, mid);
        if reduced_in(core, mid, b) && b.block_index == place && rendering(reduced, b.id) is Some {
            let k = a_form_comes_from_somewhere(reduced, b.id);
            assert(shortened_to(core, mid, place, blocks[last], reduced[k]));
        } else {
            assert(now[place] == rest[place]);
        }
        assert forall|i: int, k: int|
            0 <= i < blocks.len() && 0 <= k < reduced.len() && shortened_to(
                core,
                mid,
                place,
                #[trigger] blocks[i],
                #[trigger] reduced[k],
            ) implies now[place] == reduced[k].wire by {
            if i == last {
                the_form_of_a_block(reduced, b.id, k);
            } else {
                assert(less[i] == blocks[i]);
                assert(blocks[last].mid == mid ==> blocks[i].block_index
                    != blocks[last].block_index);
            }
        }
        if forall|i: int, k: int|
            0 <= i < blocks.len() && 0 <= k < reduced.len() ==> !shortened_to(
                core,
                mid,
                place,
                #[trigger] blocks[i],
                #[trigger] reduced[k],
            ) {
            assert forall|i: int, k: int|
                0 <= i < less.len() && 0 <= k < reduced.len() implies !shortened_to(
                core,
                mid,
                place,
                #[trigger] less[i],
                #[trigger] reduced[k],
            ) by {
                assert(less[i] == blocks[i]);
            }
        }
    }
}

/// A message of the tail goes out with each block in its shorter form whose reduction is
/// frozen and that has one, however many these are. Every other block goes out as it came in,
/// at its place, and so does all else of the message but the text it was read from, which no
/// longer holds where a reduction is frozen.
pub proof fn reduced_blocks_go_out_short(
    m: CkIngressMessageModel,
    core: CoreStateModel,
    blocks: Seq<FlatBlockModel>,
    reduced: Seq<ReducedBlockModel>,
    place: int,
)
    requires
        places_differ(blocks, m.mid),
        forms_differ(reduced),
        0 <= place < m.ck.content.len(),
    ensures
        ({
            let out = tail_form(m, core, blocks, reduced);
            &&& out.content.len() == m.ck.content.len()
            &&& out.role == m.ck.role
            &&& out.meta == m.ck.meta
            &&& out.origin == m.ck.origin
            &&& out.provider_extras == m.ck.provider_extras
            &&& forall|i: int, k: int|
                0 <= i < blocks.len() && 0 <= k < reduced.len() && shortened_to(
                    core,
                    m.mid,
                    place,
                    #[trigger] blocks[i],
                    #[trigger] reduced[k],
                ) ==> out.content[place] == reduced[k].wire && out.original is None
            &&& (forall|i: int, k: int|
                0 <= i < blocks.len() && 0 <= k < reduced.len() ==> !shortened_to(
                    core,
                    m.mid,
                    place,
                    #[trigger] blocks[i],
                    #[trigger] reduced[k],
                )) ==> out.content[place] == m.ck.content[place]
            &&& (forall|i: int|
                0 <= i < blocks.len() && (#[trigger] blocks[i]).mid == m.mid
                    ==> !reduction_is_frozen(core, blocks[i].id)) ==> out == m.ck
        }),
{
    content_place_by_place(m.ck.content, core, blocks, reduced, m.mid, place);
    assert forall|i: int, k: int|
        0 <= i < blocks.len() && 0 <= k < reduced.len() && shortened_to(
            core,
            m.mid,
            place,
            #[trigger] blocks[i],
            #[trigger] reduced[k],
        ) implies is_reduced(core, blocks, m.mid) by {
        a_frozen_reduction_has_a_payload(core, blocks[i].id);
        assert(reduced_in(core, m.mid, blocks[i]));
    }
    if is_reduced(core, blocks, m.mid) {
        let i = choose|i: int|
            0 <= i < blocks.len() && reduced_in(core, m.mid, #[trigger] blocks[i]);
        a_frozen_reduction_has_a_payload(core, blocks[i].id);
    }
}

// --- the whole output ---------------------------------------------------------------------

/// Whether a message is neither covered nor made by this library.
pub open spec fn still_shown(m: CkIngressMessageModel, coverage: Option<u64>) -> bool {
    !m.ck.meta.synthetic && (coverage matches Some(c) ==> m.ordinal > c)
}

/// A message that is neither covered nor made by this library is of the tail.
pub proof fn the_tail_is_what_is_still_shown(m: CkIngressMessageModel, coverage: Option<u64>)
    ensures
        tail_message(m, coverage) == still_shown(m, coverage),
{
}

/// Whether a message shows a text as a user's, and nothing else.
pub open spec fn shows_text(m: CkWireMessageModel, text: Seq<char>) -> bool {
    &&& m.role == "user"@
    &&& m.meta.synthetic
    &&& m.content.len() == 1
    &&& m.content[0].kind == CkKindModel::Text { text }
}

/// The number of a message among those that are still shown.
pub open spec fn shown_before(
    messages: Seq<CkIngressMessageModel>,
    coverage: Option<u64>,
    n: int,
) -> nat
    decreases n,
{
    if n <= 0 {
        0
    } else {
        shown_before(messages, coverage, n - 1) + (if still_shown(messages[n - 1], coverage) {
            1nat
        } else {
            0nat
        })
    }
}

proof fn tail_in_order(
    messages: Seq<CkIngressMessageModel>,
    core: CoreStateModel,
    meta: ModuleMetaModel,
    blocks: Seq<FlatBlockModel>,
    reduced: Seq<ReducedBlockModel>,
)
    requires
        meta.synthetic_todo is None,
    ensures
        ({
            let tail = tail_output(messages, core, meta, blocks, reduced);
            &&& tail.len() == shown_before(messages, meta.coverage_ordinal, messages.len() as int)
            &&& forall|i: int|
                0 <= i < messages.len() && still_shown(
                    #[trigger] messages[i],
                    meta.coverage_ordinal,
                ) ==> shown_before(messages, meta.coverage_ordinal, i) < tail.len() && tail[
                    shown_before(messages, meta.coverage_ordinal, i) as int
                ] == tail_form(messages[i], core, blocks, reduced)
        }),
    decreases messages.len(),
{
    if messages.len() > 0 {
        let rest = messages.drop_last();
        let last = messages.len() - 1;
        tail_in_order(rest, core, meta, blocks, reduced);
        same_count(rest, messages, meta.coverage_ordinal, last);
        assert forall|i: int|
            0 <= i < messages.len() && still_shown(
                #[trigger] messages[i],
                meta.coverage_ordinal,
            ) implies ({
            let tail = tail_output(messages, core, meta, blocks, reduced);
            shown_before(messages, meta.coverage_ordinal, i) < tail.len() && tail[shown_before(
                messages,
                meta.coverage_ordinal,
                i,
            ) as int] == tail_form(messages[i], core, blocks, reduced)
        }) by {
            if i < last {
                assert(rest[i] == messages[i]);
                same_count(rest, messages, meta.coverage_ordinal, i);
            }
        }
    }
}

proof fn same_count(
    a: Seq<CkIngressMessageModel>,
    b: Seq<CkIngressMessageModel>,
    coverage: Option<u64>,
    n: int,
)
    requires
        0 <= n <= a.len(),
        n <= b.len(),
        forall|i: int| 0 <= i < n ==> a[i] == b[i],
    ensures
        shown_before(a, coverage, n) == shown_before(b, coverage, n),
    decreases n,
{
    if n > 0 {
        same_count(a, b, coverage, n - 1);
    }
}

/// Where the history was rendered and no todo pair is shown, the output is the frozen history,
/// the frozen delta, and then every message that is neither covered nor made by this library,
/// each once and in the order in which they came in.
pub proof fn an_output_is_the_head_and_the_tail(
    core: CoreStateModel,
    meta: ModuleMetaModel,
    messages: Seq<CkIngressMessageModel>,
    blocks: Seq<FlatBlockModel>,
    reduced: Seq<ReducedBlockModel>,
    m0: int,
    m1: int,
)
    requires
        meta.synthetic_todo is None,
        0 <= m0 < core.frozen_units.len(),
        0 <= m1 < core.frozen_units.len(),
        core.frozen_units[m0].key == "m0"@,
        core.frozen_units[m1].key == "m1"@,
        forall|i: int|
            0 <= i < core.frozen_units.len() ==> ((#[trigger] core.frozen_units[i]).key == "m0"@
                ==> i == m0) && (core.frozen_units[i].key == "m1"@ ==> i == m1),
    ensures
        output_of(core, meta, messages, blocks, reduced, false) is Ok,
        ({
            let out = output_of(core, meta, messages, blocks, reduced, false)->Ok_0;
            let shown = shown_before(messages, meta.coverage_ordinal, messages.len() as int);
            &&& out.len() == 2 + shown
            &&& shows_text(out[0], core.frozen_units[m0].frozen_payload)
            &&& shows_text(out[1], core.frozen_units[m1].frozen_payload)
            &&& forall|i: int|
                0 <= i < messages.len() && still_shown(
                    #[trigger] messages[i],
                    meta.coverage_ordinal,
                ) ==> out[2int + shown_before(messages, meta.coverage_ordinal, i)] == tail_form(
                    messages[i],
                    core,
                    blocks,
                    reduced,
                )
        }),
{
    let units = core.frozen_units;
    assert forall|j: int| 0 <= j < m0 implies !unit_keyed("m0"@)(#[trigger] units[j]) by {}
    assert forall|j: int| 0 <= j < m1 implies !unit_keyed("m1"@)(#[trigger] units[j]) by {}
    first_where_is(units, unit_keyed("m0"@), m0);
    first_where_is(units, unit_keyed("m1"@), m1);
    tail_in_order(messages, core, meta, blocks, reduced);
}

/// Whether no two messages have the same id.
pub open spec fn messages_differ(messages: Seq<CkIngressMessageModel>) -> bool {
    forall|i: int, j: int|
        0 <= i < j < messages.len() ==> (#[trigger] messages[i]).mid != (#[trigger] messages[j]).mid
}

/// A record without a todo pair.
pub open spec fn without_pair(meta: ModuleMetaModel) -> ModuleMetaModel {
    ModuleMetaModel { synthetic_todo: None, ..meta }
}

proof fn tail_with_pair(
    messages: Seq<CkIngressMessageModel>,
    core: CoreStateModel,
    meta: ModuleMetaModel,
    blocks: Seq<FlatBlockModel>,
    reduced: Seq<ReducedBlockModel>,
    at: int,
)
    requires
        messages_differ(messages),
        meta.synthetic_todo is Some,
        0 <= at < messages.len(),
        still_shown(messages[at], meta.coverage_ordinal),
        meta.synthetic_todo->0.anchor_mid == Some(messages[at].mid),
    ensures
        ({
            let bare = tail_output(messages, core, without_pair(meta), blocks, reduced);
            let p = shown_before(messages, meta.coverage_ordinal, at) + 1;
            let pair = meta.synthetic_todo->0;
            &&& p <= bare.len()
            &&& tail_output(messages, core, meta, blocks, reduced) == bare.take(p as int) + seq![
                pair.assistant_msg,
                pair.tool_msg,
            ] + bare.skip(p as int)
        }),
    decreases messages.len(),
{
    let rest = messages.drop_last();
    let last = messages.len() - 1;
    let pair = meta.synthetic_todo->0;
    let two = seq![pair.assistant_msg, pair.tool_msg];
    let bare = tail_output(messages, core, without_pair(meta), blocks, reduced);
    let less = tail_output(rest, core, without_pair(meta), blocks, reduced);
    let p = shown_before(messages, meta.coverage_ordinal, at) + 1;
    let all = tail_output(messages, core, meta, blocks, reduced);
    tail_in_order(messages, core, without_pair(meta), blocks, reduced);
    tail_in_order(rest, core, without_pair(meta), blocks, reduced);
    same_count(rest, messages, meta.coverage_ordinal, at);
    if at == last {
        assert forall|i: int| 0 <= i < rest.len() implies (#[trigger] rest[i]).mid
            != messages[last].mid by {
            assert(rest[i] == messages[i]);
        }
        tail_beside_the_pair(rest, core, meta, blocks, reduced);
        assert(pair_messages(meta) =~= two);
        assert(bare.skip(p as int) =~= Seq::empty());
        assert(bare.take(p as int) =~= bare);
        assert(all =~= bare + two);
        assert(bare + two + bare.skip(p as int) =~= bare + two);
    } else {
        assert forall|i: int, j: int| 0 <= i < j < rest.len() implies (#[trigger] rest[i]).mid != (
        #[trigger] rest[j]).mid by {
            assert(rest[i] == messages[i] && rest[j] == messages[j]);
        }
        assert(rest[at] == messages[at]);
        tail_with_pair(rest, core, meta, blocks, reduced, at);
        assert(messages[at].mid != messages[last].mid);
        let before = less.take(p as int) + two + less.skip(p as int);
        if still_shown(messages[last], meta.coverage_ordinal) {
            let form = tail_form(messages[last], core, blocks, reduced);
            assert(bare == less.push(form));
            assert(all == before.push(form));
            assert(all =~= bare.take(p as int) + two + bare.skip(p as int));
        }
    }
}

proof fn tail_beside_the_pair(
    messages: Seq<CkIngressMessageModel>,
    core: CoreStateModel,
    meta: ModuleMetaModel,
    blocks: Seq<FlatBlockModel>,
    reduced: Seq<ReducedBlockModel>,
)
    requires
        meta.synthetic_todo matches Some(pair) && (pair.anchor_mid matches Some(mid) ==> forall|
            i: int,
        |
            0 <= i < messages.len() ==> (#[trigger] messages[i]).mid != mid),
    ensures
        tail_output(messages, core, meta, blocks, reduced) == tail_output(
            messages,
            core,
            without_pair(meta),
            blocks,
            reduced,
        ),
    decreases messages.len(),
{
    if messages.len() > 0 {
        let rest = messages.drop_last();
        assert forall|i: int| 0 <= i < rest.len() && meta.synthetic_todo->0.anchor_mid is Some implies (
        #[trigger] rest[i]).mid != meta.synthetic_todo->0.anchor_mid->0 by {
            assert(rest[i] == messages[i]);
        }
        assert(messages.last() == messages[messages.len() - 1]);
        tail_beside_the_pair(rest, core, meta, blocks, reduced);
    }
}

/// The todo pair changes nothing of an output but that its two messages stand in it: behind
/// the head where it has no anchor, and else right behind the message that it is anchored to.
/// Where that message is not shown, there is no output.
pub proof fn the_pair_follows_its_anchor(
    core: CoreStateModel,
    meta: ModuleMetaModel,
    messages: Seq<CkIngressMessageModel>,
    blocks: Seq<FlatBlockModel>,
    reduced: Seq<ReducedBlockModel>,
)
    requires
        messages_differ(messages),
        meta.synthetic_todo is Some,
    ensures
        ({
            let pair = meta.synthetic_todo->0;
            let two = seq![pair.assistant_msg, pair.tool_msg];
            let all = output_of(core, meta, messages, blocks, reduced, false);
            let bare = output_of(core, without_pair(meta), messages, blocks, reduced, false)->Ok_0;
            let shown = shown_before(messages, meta.coverage_ordinal, messages.len() as int);
            let head = bare.len() - shown;
            match pair.anchor_mid {
                None => all is Ok && all->Ok_0 == bare.take(head) + two + bare.skip(head),
                Some(mid) => {
                    &&& all is Ok <==> exists|i: int|
                        0 <= i < messages.len() && (#[trigger] messages[i]).mid == mid
                            && still_shown(messages[i], meta.coverage_ordinal)
                    &&& forall|i: int|
                        0 <= i < messages.len() && (#[trigger] messages[i]).mid == mid
                            && still_shown(messages[i], meta.coverage_ordinal) ==> {
                            let p = head + shown_before(messages, meta.coverage_ordinal, i) + 1;
                            &&& all->Ok_0 == bare.take(p) + two + bare.skip(p)
                            &&& bare[p - 1] == tail_form(messages[i], core, blocks, reduced)
                        }
                },
            }
        }),
{
    let pair = meta.synthetic_todo->0;
    let two = seq![pair.assistant_msg, pair.tool_msg];
    let alone = without_pair(meta);
    let bare = spliced(core, alone, messages, blocks, reduced);
    let all = spliced(core, meta, messages, blocks, reduced);
    let tail = tail_output(messages, core, alone, blocks, reduced);
    tail_in_order(messages, core, alone, blocks, reduced);
    let head = bare.len() - tail.len();
    let front = crate::transform::output::head_messages(core);
    assert(front + Seq::<CkWireMessageModel>::empty() =~= front);
    assert(bare =~= front + tail);
    assert(pair_messages(meta) =~= two);
    match pair.anchor_mid {
        None => {
            tail_beside_the_pair(messages, core, meta, blocks, reduced);
            assert(all =~= front + two + tail);
            assert(bare.take(head) =~= front);
            assert(bare.skip(head) =~= tail);
        },
        Some(mid) => {
            assert(all =~= front + tail_output(messages, core, meta, blocks, reduced));
            assert forall|i: int|
                0 <= i < messages.len() && (#[trigger] messages[i]).mid == mid && still_shown(
                    messages[i],
                    meta.coverage_ordinal,
                ) implies ({
                let p = head + shown_before(messages, meta.coverage_ordinal, i) + 1;
                &&& all == bare.take(p) + two + bare.skip(p)
                &&& bare[p - 1] == tail_form(messages[i], core, blocks, reduced)
            }) by {
                tail_with_pair(messages, core, meta, blocks, reduced, i);
                let q = shown_before(messages, meta.coverage_ordinal, i) + 1;
                let p = head + q;
                assert(bare.take(p) =~= front + tail.take(q as int));
                assert(bare.skip(p) =~= tail.skip(q as int));
                assert(all =~= bare.take(p) + two + bare.skip(p));
            }
        },
    }
}

// --- reasoning and requests -----------------------------------------------------------------

/// Whether a block holds reasoning, in the clear or not.
pub open spec fn is_reasoning(b: CkWireBlockModel) -> bool {
    b.kind is Reasoning || b.kind is RedactedReasoning
}

/// Stripping keeps every message and every block but the assistant's reasoning, which an
/// empty text takes the place of. The reasoning that the first message of a run begins with,
/// empty texts apart, is kept.
pub proof fn stripping_takes_nothing_but_reasoning(
    messages: Seq<CkWireMessageModel>,
    i: int,
    j: int,
)
    requires
        0 <= i < messages.len(),
    ensures
        ({
            let out = stripped(messages);
            let was = messages[i];
            let now = out[i];
            &&& out.len() == messages.len()
            &&& now.role == was.role
            &&& now.content.len() == was.content.len()
            &&& was.role != "assistant"@ ==> now == was
            &&& 0 <= j < was.content.len() && !is_reasoning(was.content[j]) ==> now.content[j]
                == was.content[j]
            &&& 0 <= j < was.content.len() && is_reasoning(was.content[j]) && was.role
                == "assistant"@ ==> {
                let leads = (i == 0 || messages[i - 1].role != "assistant"@) && forall|k: int|
                    0 <= k < j ==> (#[trigger] was.content[k]).kind == (CkKindModel::Text {
                        text: Seq::empty(),
                    });
                &&& leads ==> now.content[j] == was.content[j]
                &&& !leads ==> now.content[j].kind == (CkKindModel::Text { text: Seq::empty() })
            }
        }),
{
    let m = messages[i];
    let keep = kept_reasoning(messages, i);
    leading_is_first(m.content, 0);
    if reasoning_count(m.content, keep, m.content.len() as int) == 0 {
        none_is_counted(m.content, keep, m.content.len() as int);
    }
    if 0 <= j < m.content.len() {
        if forall|k: int|
            0 <= k < j ==> (#[trigger] m.content[k]).kind == (CkKindModel::Text {
                text: Seq::empty(),
            }) {
            assert forall|k: int| 0 <= k < j implies empty_text(#[trigger] m.content[k]) by {}
        }
        assert forall|k: int| empty_text(#[trigger] m.content[k]) implies m.content[k].kind == (
        CkKindModel::Text { text: Seq::empty() }) by {
            assert(m.content[k].kind->Text_text =~= Seq::empty());
        }
    }
}

proof fn leading_is_first(content: Seq<CkWireBlockModel>, from: int)
    requires
        0 <= from,
    ensures
        leading_reasoning(content, from) matches Some(k) ==> from <= k < content.len()
            && is_reasoning(content[k]) && forall|n: int|
            from <= n < k ==> empty_text(#[trigger] content[n]),
        forall|k: int|
            from <= k < content.len() && is_reasoning(#[trigger] content[k]) && (forall|n: int|
                from <= n < k ==> empty_text(#[trigger] content[n])) ==> leading_reasoning(
                content,
                from,
            ) == Some(k),
    decreases content.len() - from,
{
    if from < content.len() && empty_text(content[from]) {
        leading_is_first(content, from + 1);
    }
}

proof fn none_is_counted(content: Seq<CkWireBlockModel>, keep: Option<int>, n: int)
    requires
        reasoning_count(content, keep, n) == 0,
        n <= content.len(),
    ensures
        forall|k: int| 0 <= k < n && is_reasoning(#[trigger] content[k]) ==> keep == Some(k),
    decreases n,
{
    if n > 0 {
        none_is_counted(content, keep, n - 1);
    }
}

/// A shorter form is asked for of each block whose reduction is frozen, with its id, its
/// content and the frozen text, and of no other.
pub proof fn frozen_blocks_are_asked_for(core: CoreStateModel, blocks: Seq<FlatBlockModel>, i: int)
    ensures
        0 <= i < blocks.len() && reduction_is_frozen(core, blocks[i].id) ==> exists|k: int|
            0 <= k < reductions_to_render(core, blocks).len() && asks_for(
                core,
                #[trigger] reductions_to_render(core, blocks)[k],
                blocks[i],
            ),
        0 <= i < reductions_to_render(core, blocks).len() ==> exists|k: int|
            0 <= k < blocks.len() && reduction_is_frozen(core, blocks[k].id) && asks_for(
                core,
                reductions_to_render(core, blocks)[i],
                #[trigger] blocks[k],
            ),
    decreases blocks.len(),
{
    if blocks.len() > 0 {
        let less = blocks.drop_last();
        let b = blocks.last();
        let rest = reductions_to_render(core, less);
        let all = reductions_to_render(core, blocks);
        a_frozen_reduction_has_a_payload(core, b.id);
        frozen_blocks_are_asked_for(core, less, i);
        assert(blocks[blocks.len() - 1] == b);
        if 0 <= i < less.len() && reduction_is_frozen(core, blocks[i].id) {
            assert(less[i] == blocks[i]);
            let k = choose|k: int|
                0 <= k < rest.len() && asks_for(core, #[trigger] rest[k], less[i]);
            assert(all[k] == rest[k]);
        } else if i == less.len() && reduction_is_frozen(core, b.id) {
            assert(asks_for(core, all[rest.len() as int], b));
        }
        if 0 <= i < rest.len() {
            assert(all[i] == rest[i]);
            let k = choose|k: int|
                0 <= k < less.len() && reduction_is_frozen(core, less[k].id) && asks_for(
                    core,
                    rest[i],
                    #[trigger] less[k],
                );
            assert(blocks[k] == less[k]);
        } else if rest.len() <= i < all.len() {
            assert(asks_for(core, all[i], blocks[blocks.len() - 1]));
        }
    }
}

/// Whether a request is for a block, with the frozen text of its reduction.
pub open spec fn asks_for(
    core: CoreStateModel,
    request: ReductionRequestModel,
    b: FlatBlockModel,
) -> bool {
    &&& request.id == b.id
    &&& request.wire == b.wire
    &&& request.file_path == b.file_path
    &&& frozen_payload(core, b.id) == Some(request.payload)
}

} // verus!
