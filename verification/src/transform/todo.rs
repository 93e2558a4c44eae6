//! The todo pair: two generated messages that stay at the place where they were put.

use vstd::prelude::*;

use crate::meta::{
    FrozenSyntheticTodoPair, FrozenSyntheticTodoPairModel, ModuleMeta, ModuleMetaModel,
};
use crate::rows::{opt_view, take_all, take_next, views, group_views, Row};
use crate::text::same_text;
use crate::transform::errors::{TransformError, TransformErrorModel};
use crate::transform::reductions::{advanced, coverage_advanced, in_tail, is_tail};
use crate::transform::types::{CkIngressMessage, CkIngressMessageModel};

verus! {

/// What becomes of the todo pair in a pass.
#[derive(Debug, PartialEq, Eq)]
pub enum InjectionOutcome {
    /// Put this pair at the end of the tail.
    Replace(FrozenSyntheticTodoPair),
    Clear,
    Keep,
    Nothing,
}

/// What an [`InjectionOutcome`] holds.
#[verifier::ext_equal]
pub enum InjectionOutcomeModel {
    Replace(FrozenSyntheticTodoPairModel),
    Clear,
    Keep,
    Nothing,
}

impl View for InjectionOutcome {
    type V = InjectionOutcomeModel;

    open spec fn view(&self) -> InjectionOutcomeModel {
        match self {
            InjectionOutcome::Replace(pair) => InjectionOutcomeModel::Replace(pair@),
            InjectionOutcome::Clear => InjectionOutcomeModel::Clear,
            InjectionOutcome::Keep => InjectionOutcomeModel::Keep,
            InjectionOutcome::Nothing => InjectionOutcomeModel::Nothing,
        }
    }
}

/// Whether a message belongs to the tail.
pub open spec fn tail_message(m: CkIngressMessageModel, coverage: Option<u64>) -> bool {
    !m.ck.meta.synthetic && in_tail(m.ordinal, coverage)
}

/// The id of the last message of the tail.
pub open spec fn tail_end(messages: Seq<CkIngressMessageModel>, coverage: Option<u64>) -> Option<
    Seq<char>,
>
    decreases messages.len(),
{
    if messages.len() == 0 {
        None
    } else if tail_message(messages.last(), coverage) {
        Some(messages.last().mid)
    } else {
        tail_end(messages.drop_last(), coverage)
    }
}

/// Whether a message of the tail has this id.
pub open spec fn tail_names(
    messages: Seq<CkIngressMessageModel>,
    coverage: Option<u64>,
    mid: Seq<char>,
) -> bool {
    exists|i: int|
        0 <= i < messages.len() && (#[trigger] messages[i]).mid == mid && tail_message(
            messages[i],
            coverage,
        )
}

/// Whether growing coverage took the message with this id out of the tail.
pub open spec fn folded_away(
    messages: Seq<CkIngressMessageModel>,
    old: Option<u64>,
    new: Option<u64>,
    mid: Seq<char>,
) -> bool {
    &&& advanced(old, new)
    &&& exists|i: int|
        0 <= i < messages.len() && (#[trigger] messages[i]).mid == mid && tail_message(
            messages[i],
            old,
        ) && !in_tail(messages[i].ordinal, new)
}

/// Finds the id of the last message of the tail.
pub fn tail_end_mid(messages: &Vec<CkIngressMessage>, coverage: Option<u64>) -> (r: Option<String>)
    ensures
        opt_view(r) == tail_end(views(messages@), coverage),
{
    broadcast use group_views;

    let ghost all = views(messages@);
    let mut i: usize = messages.len();
    proof {
        take_all(all);
    }
    while i > 0
        invariant
            i <= messages.len(),
            all == views(messages@),
            tail_end(all, coverage) == tail_end(all.take(i as int), coverage),
        decreases i,
    {
        i -= 1;
        proof {
            take_next(all, i as int);
        }
        assert(all[i as int] == messages@[i as int]@);
        if !messages[i].ck.meta.synthetic && is_tail(messages[i].ordinal, coverage) {
            return Some(messages[i].mid.clone());
        }
    }
    None
}

/// Tests whether a message of the tail has this id.
pub fn tail_contains_mid(messages: &Vec<CkIngressMessage>, coverage: Option<u64>, mid: &str) -> (r:
    bool)
    ensures
        r == tail_names(views(messages@), coverage, mid@),
{
    let ghost all = views(messages@);
    let mut i: usize = 0;
    while i < messages.len()
        invariant
            i <= messages.len(),
            all == views(messages@),
            forall|j: int|
                0 <= j < i ==> !((#[trigger] all[j]).mid == mid@ && tail_message(all[j], coverage)),
        decreases messages.len() - i,
    {
        assert(all[i as int] == messages@[i as int]@);
        if !messages[i].ck.meta.synthetic && same_text(&messages[i].mid, mid) && is_tail(
            messages[i].ordinal,
            coverage,
        ) {
            assert(all[i as int].mid == mid@);
            return true;
        }
        i += 1;
    }
    false
}

/// Tests whether growing coverage took the message with this id out of the tail.
pub fn anchor_folded_by_coverage(
    messages: &Vec<CkIngressMessage>,
    old_coverage: Option<u64>,
    new_coverage: Option<u64>,
    anchor_mid: &str,
) -> (r: bool)
    ensures
        r == folded_away(views(messages@), old_coverage, new_coverage, anchor_mid@),
{
    if !coverage_advanced(old_coverage, new_coverage) {
        return false;
    }
    let ghost all = views(messages@);
    let mut i: usize = 0;
    while i < messages.len()
        invariant
            i <= messages.len(),
            all == views(messages@),
            advanced(old_coverage, new_coverage),
            forall|j: int|
                0 <= j < i ==> !((#[trigger] all[j]).mid == anchor_mid@ && tail_message(
                    all[j],
                    old_coverage,
                ) && !in_tail(all[j].ordinal, new_coverage)),
        decreases messages.len() - i,
    {
        assert(all[i as int] == messages@[i as int]@);
        let m = &messages[i];
        if !m.ck.meta.synthetic && same_text(&m.mid, anchor_mid) && is_tail(
            m.ordinal,
            old_coverage,
        ) && !is_tail(m.ordinal, new_coverage) {
            assert(all[i as int].mid == anchor_mid@);
            return true;
        }
        i += 1;
    }
    false
}

/// A pair at another place.
pub open spec fn anchored(
    pair: FrozenSyntheticTodoPairModel,
    anchor: Option<Seq<char>>,
) -> FrozenSyntheticTodoPairModel {
    FrozenSyntheticTodoPairModel { anchor_mid: anchor, ..pair }
}

/// The record with a kept pair where it belongs: at its message while that is in the tail,
/// and at the end of the tail where coverage moved past its message.
pub open spec fn reanchored(
    meta: ModuleMetaModel,
    old_coverage: Option<u64>,
    shrunk: bool,
    messages: Seq<CkIngressMessageModel>,
) -> Result<ModuleMetaModel, TransformErrorModel> {
    match meta.synthetic_todo {
        None => Ok(meta),
        Some(pair) => match pair.anchor_mid {
            None => Ok(meta),
            Some(mid) => if tail_names(messages, meta.coverage_ordinal, mid) {
                Ok(meta)
            } else if !folded_away(messages, old_coverage, meta.coverage_ordinal, mid) && !shrunk {
                Err(TransformErrorModel::SyntheticTodoAnchorMissing(mid))
            } else {
                Ok(
                    ModuleMetaModel {
                        synthetic_todo: Some(
                            anchored(pair, tail_end(messages, meta.coverage_ordinal)),
                        ),
                        ..meta
                    },
                )
            },
        },
    }
}

/// The record after a pass decided on the todo pair.
pub open spec fn todo_advanced(
    meta: ModuleMetaModel,
    outcome: InjectionOutcomeModel,
    bust: bool,
    old_coverage: Option<u64>,
    shrunk: bool,
    messages: Seq<CkIngressMessageModel>,
) -> Result<ModuleMetaModel, TransformErrorModel> {
    match outcome {
        InjectionOutcomeModel::Replace(pair) => Ok(
            ModuleMetaModel {
                synthetic_todo: Some(anchored(pair, tail_end(messages, meta.coverage_ordinal))),
                ..meta
            },
        ),
        InjectionOutcomeModel::Clear => Ok(ModuleMetaModel { synthetic_todo: None, ..meta }),
        InjectionOutcomeModel::Keep => if bust {
            reanchored(meta, old_coverage, shrunk, messages)
        } else {
            Ok(meta)
        },
        InjectionOutcomeModel::Nothing => Ok(meta),
    }
}

/// A kept pair moves only where coverage moved: on a pass that does not render anew, and
/// while its message is in the tail, it stays where it is.
pub proof fn a_kept_pair_stays(
    meta: ModuleMetaModel,
    bust: bool,
    old_coverage: Option<u64>,
    shrunk: bool,
    messages: Seq<CkIngressMessageModel>,
)
    requires
        meta.synthetic_todo matches Some(pair) && (bust ==> (pair.anchor_mid matches Some(mid)
            ==> tail_names(messages, meta.coverage_ordinal, mid))),
    ensures
        todo_advanced(meta, InjectionOutcomeModel::Keep, bust, old_coverage, shrunk, messages)
            == Ok::<ModuleMetaModel, TransformErrorModel>(meta),
{
}

/// Behind a pass that rendered anew, a pair with an anchor is anchored in the tail.
pub proof fn a_bust_anchors_the_pair(
    meta: ModuleMetaModel,
    outcome: InjectionOutcomeModel,
    old_coverage: Option<u64>,
    shrunk: bool,
    messages: Seq<CkIngressMessageModel>,
)
    requires
        outcome !is Nothing,
        todo_advanced(meta, outcome, true, old_coverage, shrunk, messages) is Ok,
    ensures
        todo_advanced(meta, outcome, true, old_coverage, shrunk, messages)->Ok_0.synthetic_todo
            matches Some(pair) ==> (pair.anchor_mid matches Some(mid) ==> tail_names(
            messages,
            meta.coverage_ordinal,
            mid,
        )),
{
    tail_end_is_in_the_tail(messages, meta.coverage_ordinal);
}

proof fn tail_end_is_in_the_tail(messages: Seq<CkIngressMessageModel>, coverage: Option<u64>)
    ensures
        tail_end(messages, coverage) matches Some(mid) ==> tail_names(messages, coverage, mid),
    decreases messages.len(),
{
    if messages.len() > 0 {
        if tail_message(messages.last(), coverage) {
            assert(messages[messages.len() - 1].mid == messages.last().mid);
        } else {
            let rest = messages.drop_last();
            tail_end_is_in_the_tail(rest, coverage);
            if tail_end(rest, coverage) is Some {
                let mid = tail_end(rest, coverage)->0;
                let i = choose|i: int|
                    0 <= i < rest.len() && (#[trigger] rest[i]).mid == mid && tail_message(
                        rest[i],
                        coverage,
                    );
                assert(messages[i] == rest[i]);
            }
        }
    }
}

/// Keeps a pair where it belongs.
pub fn reanchor_kept_synthetic_todo_if_folded_or_shrunk(
    meta: &mut ModuleMeta,
    old_coverage: Option<u64>,
    coverage_shrunk_on_bust: bool,
    messages: &Vec<CkIngressMessage>,
) -> (r: Result<(), TransformError>)
    ensures
        match (r, reanchored(
            old(meta)@,
            old_coverage,
            coverage_shrunk_on_bust,
            views(messages@),
        )) {
            (Ok(_), Ok(after)) => final(meta)@ == after,
            (Err(e), Err(fault)) => e@ == fault && final(meta)@ == old(meta)@,
            _ => false,
        },
{
    let mut pair = match &meta.synthetic_todo {
        Some(pair) => pair.dup(),
        None => {
            return Ok(());
        },
    };
    let mid = match &pair.anchor_mid {
        Some(mid) => mid.clone(),
        None => {
            return Ok(());
        },
    };
    if tail_contains_mid(messages, meta.coverage_ordinal, &mid) {
        return Ok(());
    }
    if !anchor_folded_by_coverage(messages, old_coverage, meta.coverage_ordinal, &mid)
        && !coverage_shrunk_on_bust {
        return Err(TransformError::SyntheticTodoAnchorMissing(mid));
    }
    pair.anchor_mid = tail_end_mid(messages, meta.coverage_ordinal);
    meta.synthetic_todo = Some(pair);
    Ok(())
}

/// Decides on the todo pair.
pub fn advance_synthetic_todo(
    meta: &mut ModuleMeta,
    outcome: &InjectionOutcome,
    is_bust_pass: bool,
    old_coverage: Option<u64>,
    coverage_shrunk_on_bust: bool,
    messages: &Vec<CkIngressMessage>,
) -> (r: Result<(), TransformError>)
    ensures
        match (r, todo_advanced(
            old(meta)@,
            outcome@,
            is_bust_pass,
            old_coverage,
            coverage_shrunk_on_bust,
            views(messages@),
        )) {
            (Ok(_), Ok(after)) => final(meta)@ == after,
            (Err(e), Err(fault)) => e@ == fault && final(meta)@ == old(meta)@,
            _ => false,
        },
{
    match outcome {
        InjectionOutcome::Replace(next) => {
            let mut pair = next.dup();
            pair.anchor_mid = tail_end_mid(messages, meta.coverage_ordinal);
            meta.synthetic_todo = Some(pair);
            Ok(())
        },
        InjectionOutcome::Clear => {
            meta.synthetic_todo = None;
            Ok(())
        },
        InjectionOutcome::Keep => {
            if is_bust_pass {
                reanchor_kept_synthetic_todo_if_folded_or_shrunk(
                    meta,
                    old_coverage,
                    coverage_shrunk_on_bust,
                    messages,
                )
            } else {
                Ok(())
            }
        },
        InjectionOutcome::Nothing => Ok(()),
    }
}

} // verus!
