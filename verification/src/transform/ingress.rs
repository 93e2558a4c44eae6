//! What comes into a pass: checking the conversation, and what the deciders read of it.

use vstd::prelude::*;

use crate::meta::{
    CoreState, CoreStateModel, DeferredExecuteState, DeferredExecuteStateModel, MidIdentity,
    MidIdentityModel, ModuleMeta, ModuleMetaModel, ModuleUsage,
};
use crate::rows::{
    find_row, find_where, first_where, group_views, keep_where, list_same, map_rows, opt_dup,
    opt_view, select_rows, take_all, take_next, views, Row, RowTest,
};
use crate::store::compartments::{flat_block_id, split_flat_block_id};
use crate::store::records::{StoredCompartment, StoredCompartmentModel};
use crate::text::{same_text, starts, starts_with};
use crate::transform::errors::{TransformError, TransformErrorModel};
use crate::transform::reductions::{
    frozen_red_targets, frozen_targets, is_tail, live_block, tail_block, RED_KEY_PREFIX,
};
use crate::transform::types::{
    CkIngressMessage, CkIngressMessageModel, DeferredExecute, FlatBlock, FlatBlockModel,
    FlatProjection, FlatProjectionModel, LatchState, LegacyCkItemWire, LegacyCkItemWireModel,
    PassClass, PassDecision, SchedulerOutcome, SchedulerOutcomeModel, SelItem, SelItemModel,
    SelKind, SelKindModel, TailState, TransformRequest, TransformRequestModel,
    TransformRequestWire, TransformRequestWireModel,
};
use crate::wire::{
    bare_block, CkKind, CkKindModel, CkWireBlock, CkWireMessage, CkWireMessageModel, HarnessMeta,
    HarnessMetaModel, ProviderExtras, ProviderExtrasModel,
};

verus! {

/// How the id of a generated block begins. No message of a conversation may bear it.
pub const RESERVED_ID_PREFIX: &'static str = "mc_";

// --- requests -------------------------------------------------------------------------

/// The version that a request without one has.
pub fn default_wire_version() -> (r: u32)
    ensures
        r == 2,
{
    2
}

/// The message that an item of the flat format stands for.
pub open spec fn item_message(item: LegacyCkItemWireModel) -> CkIngressMessageModel {
    CkIngressMessageModel {
        mid: item.id,
        ordinal: item.ordinal,
        ck: CkWireMessageModel {
            role: "user"@,
            content: seq![bare_block(CkKindModel::Text { text: item.bytes })],
            origin: None,
            provider_extras: ProviderExtrasModel { json: None },
            meta: HarnessMetaModel {
                harness_id: Some(item.id),
                ordinal: None,
                synthetic: item.synthetic,
            },
            original: None,
        },
    }
}

/// Reads an item of the flat format as a message.
pub fn legacy_item_to_message(item: LegacyCkItemWire) -> (r: CkIngressMessage)
    ensures
        r@ == item_message(item@),
{
    broadcast use group_views;

    let ghost given = item@;
    let mut content: Vec<CkWireBlock> = Vec::new();
    content.push(CkWireBlock::bare(CkKind::Text { text: item.bytes }));
    assert(views(content@) =~= seq![bare_block(CkKindModel::Text { text: given.bytes })]);
    let mid = item.id.clone();
    CkIngressMessage {
        mid,
        ordinal: item.ordinal,
        ck: CkWireMessage::from_parts(
            "user",
            content,
            None,
            ProviderExtras::new(),
            HarnessMeta {
                harness_id: Some(item.id),
                ordinal: None,
                synthetic: item.synthetic,
            },
        ),
    }
}

/// The request that comes over the wire. Items of the flat format count only where there is
/// no message.
pub open spec fn request_of(wire: TransformRequestWireModel) -> TransformRequestModel {
    TransformRequestModel {
        kind: wire.kind,
        v: wire.v,
        serializer_profile: match wire.serializer_profile {
            Some(profile) => profile,
            None => Seq::empty(),
        },
        session_id: wire.session_id,
        render_config: wire.render_config,
        full_array_fingerprint: wire.full_array_fingerprint,
        messages: if wire.messages.len() == 0 {
            wire.items.map_values(|item: LegacyCkItemWireModel| item_message(item))
        } else {
            wire.messages
        },
        tail_delta: wire.tail_delta,
        usage: wire.usage,
        provider_error: wire.provider_error,
    }
}

fn item_as_message(item: &LegacyCkItemWire) -> (r: CkIngressMessage)
    ensures
        r@ == item_message(item@),
{
    legacy_item_to_message(item.dup())
}

/// Reads a request off the wire.
pub fn request_from_wire(wire: TransformRequestWire) -> (r: TransformRequest)
    ensures
        r@ == request_of(wire@),
{
    broadcast use group_views;

    let messages = if wire.messages.len() == 0 {
        map_rows(
            &wire.items,
            item_as_message,
            Ghost(|item: LegacyCkItemWireModel| item_message(item)),
        )
    } else {
        wire.messages
    };
    TransformRequest {
        kind: wire.kind,
        v: wire.v,
        serializer_profile: match wire.serializer_profile {
            Some(profile) => profile,
            None => String::new(),
        },
        session_id: wire.session_id,
        render_config: wire.render_config,
        full_array_fingerprint: wire.full_array_fingerprint,
        messages,
        tail_delta: wire.tail_delta,
        usage: wire.usage,
        provider_error: wire.provider_error,
    }
}

// --- checking the conversation --------------------------------------------------------

/// Reads the blocks of the conversation.
pub fn live_blocks(projection: &FlatProjection) -> (r: Vec<FlatBlock>)
    ensures
        views(r@) == keep_where(projection@.blocks, live_block()),
{
    select_rows(&projection.blocks, &LiveBlock)
}

/// Accepts blocks of the conversation.
pub struct LiveBlock;

impl RowTest<FlatBlock> for LiveBlock {
    open spec fn accepts(&self) -> spec_fn(FlatBlockModel) -> bool {
        live_block()
    }

    fn test(&self, row: &FlatBlock) -> (r: bool) {
        !row.synthetic
    }
}

/// Whether the block at `i` repeats the id of an earlier one.
pub open spec fn repeats(blocks: Seq<FlatBlockModel>, i: int) -> bool {
    exists|j: int| 0 <= j < i && (#[trigger] blocks[j]).id == blocks[i].id
}

/// The first id that occurs again.
pub open spec fn first_repeat(blocks: Seq<FlatBlockModel>) -> Option<Seq<char>>
    decreases blocks.len(),
{
    if blocks.len() == 0 {
        None
    } else {
        match first_repeat(blocks.drop_last()) {
            Some(id) => Some(id),
            None => if repeats(blocks, blocks.len() - 1) {
                Some(blocks.last().id)
            } else {
                None
            },
        }
    }
}

/// No id occurs again exactly where all ids differ.
pub proof fn no_repeat_means_distinct(blocks: Seq<FlatBlockModel>)
    ensures
        first_repeat(blocks) is None <==> (forall|i: int, j: int|
            0 <= i < j < blocks.len() ==> (#[trigger] blocks[i]).id != (#[trigger] blocks[j]).id),
    decreases blocks.len(),
{
    if blocks.len() > 0 {
        let rest = blocks.drop_last();
        no_repeat_means_distinct(rest);
        let n = blocks.len() - 1;
        if first_repeat(blocks) is None {
            assert forall|i: int, j: int| 0 <= i < j < blocks.len() implies (
            #[trigger] blocks[i]).id != (#[trigger] blocks[j]).id by {
                if j < n {
                    assert(rest[i] == blocks[i] && rest[j] == blocks[j]);
                } else {
                    assert(!repeats(blocks, n));
                }
            }
        } else {
            if first_repeat(rest) is Some {
                let (i, j) = choose|i: int, j: int|
                    0 <= i < j < rest.len() && (#[trigger] rest[i]).id == (#[trigger] rest[j]).id;
                assert(blocks[i] == rest[i] && blocks[j] == rest[j]);
            } else {
                let j = choose|j: int| 0 <= j < n && (#[trigger] blocks[j]).id == blocks[n].id;
                assert(blocks[j].id == blocks[n].id);
            }
        }
    }
}

/// Finds the first id that occurs again.
pub fn duplicate_ids(blocks: &Vec<FlatBlock>) -> (r: Option<String>)
    ensures
        opt_view(r) == first_repeat(views(blocks@)),
{
    broadcast use group_views;

    let ghost all = views(blocks@);
    let mut i: usize = 0;
    while i < blocks.len()
        invariant
            i <= blocks.len(),
            all == views(blocks@),
            first_repeat(all.take(i as int)) is None,
        decreases blocks.len() - i,
    {
        let ghost next = all.take(i + 1);
        proof {
            take_next(all, i as int);
            assert(next[i as int] == all[i as int]);
            assert(all[i as int] == blocks@[i as int]@);
        }
        let mut j: usize = 0;
        while j < i
            invariant
                j <= i < blocks.len(),
                all == views(blocks@),
                next == all.take(i + 1),
                next.last() == all[i as int],
                next.drop_last() == all.take(i as int),
                first_repeat(all.take(i as int)) is None,
                forall|k: int| 0 <= k < j ==> (#[trigger] next[k]).id != next[i as int].id,
            decreases i - j,
        {
            assert(next[j as int] == all[j as int] && all[j as int] == blocks@[j as int]@);
            assert(next[i as int] == all[i as int] && all[i as int] == blocks@[i as int]@);
            if same_text(&blocks[j].id, &blocks[i].id) {
                proof {
                    assert(repeats(next, i as int));
                    repeat_found(all, i + 1);
                }
                return Some(blocks[i].id.clone());
            }
            j += 1;
        }
        assert(!repeats(next, i as int));
        i += 1;
    }
    proof {
        take_all(all);
    }
    None
}

proof fn repeat_found(blocks: Seq<FlatBlockModel>, n: int)
    requires
        0 <= n <= blocks.len(),
        first_repeat(blocks.take(n)) is Some,
    ensures
        first_repeat(blocks) == first_repeat(blocks.take(n)),
    decreases blocks.len(),
{
    if n == blocks.len() {
        take_all(blocks);
    } else {
        let rest = blocks.drop_last();
        assert(rest.take(n) =~= blocks.take(n));
        repeat_found(rest, n);
    }
}

/// A block of the conversation that bears a reserved id.
pub open spec fn reserved_block() -> spec_fn(FlatBlockModel) -> bool {
    |b: FlatBlockModel| !b.synthetic && starts(b.id, RESERVED_ID_PREFIX@)
}

/// Accepts blocks of the conversation that bear a reserved id.
pub struct ReservedBlock;

impl RowTest<FlatBlock> for ReservedBlock {
    open spec fn accepts(&self) -> spec_fn(FlatBlockModel) -> bool {
        reserved_block()
    }

    fn test(&self, row: &FlatBlock) -> (r: bool) {
        !row.synthetic && starts_with(&row.id, RESERVED_ID_PREFIX)
    }
}

/// A message of the conversation, not one that a pass generated.
pub open spec fn live_message() -> spec_fn(CkIngressMessageModel) -> bool {
    |m: CkIngressMessageModel| !m.ck.meta.synthetic
}

/// Accepts messages of the conversation.
pub struct LiveMessage;

impl RowTest<CkIngressMessage> for LiveMessage {
    open spec fn accepts(&self) -> spec_fn(CkIngressMessageModel) -> bool {
        live_message()
    }

    fn test(&self, row: &CkIngressMessage) -> (r: bool) {
        !row.ck.meta.synthetic
    }
}

/// Whether ordinals increase strictly.
pub open spec fn ordinals_increase(messages: Seq<CkIngressMessageModel>) -> bool {
    forall|i: int, j: int|
        0 <= i < j < messages.len() ==> (#[trigger] messages[i]).ordinal < (
        #[trigger] messages[j]).ordinal
}

/// What is wrong with a conversation, if anything.
pub open spec fn ingress_fault(
    messages: Seq<CkIngressMessageModel>,
    blocks: Seq<FlatBlockModel>,
) -> Option<TransformErrorModel> {
    match first_repeat(blocks) {
        Some(id) => Some(TransformErrorModel::DuplicateBlockId(id)),
        None => if first_where(blocks, reserved_block()) is Some {
            Some(TransformErrorModel::ReservedId)
        } else if !ordinals_increase(keep_where(messages, live_message())) {
            Some(TransformErrorModel::OrdinalViolation)
        } else {
            None
        },
    }
}

fn do_ordinals_increase(messages: &Vec<CkIngressMessage>) -> (r: bool)
    ensures
        r == ordinals_increase(views(messages@)),
{
    let ghost all = views(messages@);
    let mut i: usize = 1;
    while i < messages.len()
        invariant
            1 <= i,
            i <= messages.len() || messages.len() == 0,
            all == views(messages@),
            forall|j: int, k: int|
                0 <= j < k < i && k < all.len() ==> (#[trigger] all[j]).ordinal < (
                #[trigger] all[k]).ordinal,
        decreases messages.len() - i,
    {
        assert(all[i - 1] == messages@[i - 1]@);
        assert(all[i as int] == messages@[i as int]@);
        if messages[i].ordinal <= messages[i - 1].ordinal {
            assert(!(all[i - 1].ordinal < all[i as int].ordinal));
            return false;
        }
        assert forall|j: int, k: int| 0 <= j < k < i + 1 && k < all.len() implies (
        #[trigger] all[j]).ordinal < (#[trigger] all[k]).ordinal by {
            if k == i && j < i - 1 {
                assert(all[j].ordinal < all[i - 1].ordinal);
            }
        }
        i += 1;
    }
    true
}

/// Checks a conversation before anything is read for it.
pub fn check_ingress(messages: &Vec<CkIngressMessage>, projection: &FlatProjection) -> (r: Result<
    (),
    TransformError,
>)
    ensures
        match r {
            Ok(_) => ingress_fault(views(messages@), projection@.blocks) is None,
            Err(e) => ingress_fault(views(messages@), projection@.blocks) == Some(e@),
        },
{
    match duplicate_ids(&projection.blocks) {
        Some(id) => {
            return Err(TransformError::DuplicateBlockId(id));
        },
        None => {},
    }
    if find_row(&projection.blocks, &ReservedBlock).is_some() {
        return Err(TransformError::ReservedId);
    }
    let live = select_rows(messages, &LiveMessage);
    if !do_ordinals_increase(&live) {
        return Err(TransformError::OrdinalViolation);
    }
    Ok(())
}

// --- block identities -----------------------------------------------------------------

/// The identities of a message.
pub open spec fn identities_of(mid: Seq<char>) -> spec_fn(MidIdentityModel) -> bool {
    |m: MidIdentityModel| m.mid == mid
}

/// A message whose blocks are not what they were when it was first seen.
pub open spec fn drifted(stored: Seq<MidIdentityModel>) -> spec_fn(MidIdentityModel) -> bool {
    |m: MidIdentityModel|
        find_where(stored, identities_of(m.mid)) matches Some(s) && s.blocks != m.blocks
}

/// A frozen target whose message is there without that block.
pub open spec fn vanished(projection: FlatProjectionModel) -> spec_fn(Seq<char>) -> bool {
    |t: Seq<char>|
        flat_block_id(t) matches Some((mid, _)) && first_where(
            projection.identity_by_mid,
            identities_of(mid),
        ) is Some && first_where(projection.blocks, live_block_with_id(t)) is None
}

/// A block of the conversation with this id.
pub open spec fn live_block_with_id(id: Seq<char>) -> spec_fn(FlatBlockModel) -> bool {
    |b: FlatBlockModel| !b.synthetic && b.id == id
}

/// What is wrong with the identities of the conversation's blocks, if anything.
pub open spec fn identity_fault(
    meta: ModuleMetaModel,
    projection: FlatProjectionModel,
    core: CoreStateModel,
) -> Option<TransformErrorModel> {
    match find_where(projection.identity_by_mid, drifted(meta.block_identity_by_mid)) {
        Some(m) => Some(TransformErrorModel::IdentityDrift(m.mid)),
        None => match find_where(frozen_targets(core.frozen_units), vanished(projection)) {
            Some(t) => Some(TransformErrorModel::FrozenRedTargetVanish(t)),
            None => None,
        },
    }
}

/// Accepts the identities of a message.
pub struct IdentitiesOf<'a> {
    pub mid: &'a str,
}

impl<'a> RowTest<MidIdentity> for IdentitiesOf<'a> {
    open spec fn accepts(&self) -> spec_fn(MidIdentityModel) -> bool {
        identities_of(self.mid@)
    }

    fn test(&self, row: &MidIdentity) -> (r: bool) {
        same_text(&row.mid, self.mid)
    }
}

/// Accepts messages whose blocks changed.
pub struct Drifted<'a> {
    pub stored: &'a Vec<MidIdentity>,
}

impl<'a> RowTest<MidIdentity> for Drifted<'a> {
    open spec fn accepts(&self) -> spec_fn(MidIdentityModel) -> bool {
        drifted(views(self.stored@))
    }

    fn test(&self, row: &MidIdentity) -> (r: bool) {
        match find_row(self.stored, &IdentitiesOf { mid: &row.mid }) {
            Some(at) => !list_same(&self.stored[at].blocks, &row.blocks),
            None => false,
        }
    }
}

/// Accepts the block of the conversation with an id.
pub struct LiveBlockWithId<'a> {
    pub id: &'a str,
}

impl<'a> RowTest<FlatBlock> for LiveBlockWithId<'a> {
    open spec fn accepts(&self) -> spec_fn(FlatBlockModel) -> bool {
        live_block_with_id(self.id@)
    }

    fn test(&self, row: &FlatBlock) -> (r: bool) {
        !row.synthetic && same_text(&row.id, self.id)
    }
}

/// Accepts frozen targets whose block vanished.
pub struct Vanished<'a> {
    pub projection: &'a FlatProjection,
}

impl<'a> RowTest<String> for Vanished<'a> {
    open spec fn accepts(&self) -> spec_fn(Seq<char>) -> bool {
        vanished(self.projection@)
    }

    fn test(&self, row: &String) -> (r: bool) {
        match split_flat_block_id(row) {
            Some((mid, _)) => find_row(
                &self.projection.identity_by_mid,
                &IdentitiesOf { mid },
            ).is_some() && find_row(
                &self.projection.blocks,
                &LiveBlockWithId { id: row },
            ).is_none(),
            None => false,
        }
    }
}

/// Checks that the blocks of every message are what they were, and that every frozen
/// reduction of a present message still has its block.
pub fn enforce_block_identity(meta: &ModuleMeta, projection: &FlatProjection, core: &CoreState) -> (r:
    Result<(), TransformError>)
    ensures
        match r {
            Ok(_) => identity_fault(meta@, projection@, core@) is None,
            Err(e) => identity_fault(meta@, projection@, core@) == Some(e@),
        },
{
    match find_row(
        &projection.identity_by_mid,
        &Drifted { stored: &meta.block_identity_by_mid },
    ) {
        Some(at) => {
            return Err(
                TransformError::IdentityDrift(projection.identity_by_mid[at].mid.clone()),
            );
        },
        None => {},
    }
    let targets = frozen_red_targets(core);
    match find_row(&targets, &Vanished { projection }) {
        Some(at) => Err(TransformError::FrozenRedTargetVanish(targets[at].clone())),
        None => Ok(()),
    }
}

/// The identities with those of messages that were not seen before.
pub open spec fn with_identities(
    stored: Seq<MidIdentityModel>,
    seen: Seq<MidIdentityModel>,
) -> Seq<MidIdentityModel>
    decreases seen.len(),
{
    if seen.len() == 0 {
        stored
    } else {
        let rest = with_identities(stored, seen.drop_last());
        if first_where(rest, identities_of(seen.last().mid)) is Some {
            rest
        } else {
            rest.push(seen.last())
        }
    }
}

/// The record after a request came in: what it shows for the first time is kept.
pub open spec fn ingress_meta(
    meta: ModuleMetaModel,
    usage: Option<ModuleUsage>,
    projection: FlatProjectionModel,
) -> ModuleMetaModel {
    ModuleMetaModel {
        block_identity_by_mid: with_identities(
            meta.block_identity_by_mid,
            projection.identity_by_mid,
        ),
        last_usage: match reported_usage(usage) {
            Some(u) => Some(u),
            None => meta.last_usage,
        },
        ..meta
    }
}

/// The usage that a request reports; one of zero is none.
pub open spec fn reported_usage(usage: Option<ModuleUsage>) -> Option<ModuleUsage> {
    match usage {
        Some(u) => if u.current_total_input_tokens > 0 || u.context_limit_tokens > 0 {
            Some(u)
        } else {
            None
        },
        None => None,
    }
}

/// What was seen of a message stays: a message that is known keeps its identities.
pub proof fn identities_stay(
    stored: Seq<MidIdentityModel>,
    seen: Seq<MidIdentityModel>,
    mid: Seq<char>,
)
    requires
        find_where(stored, identities_of(mid)) is Some,
    ensures
        find_where(with_identities(stored, seen), identities_of(mid)) == find_where(
            stored,
            identities_of(mid),
        ),
    decreases seen.len(),
{
    if seen.len() > 0 {
        identities_stay(stored, seen.drop_last(), mid);
        let rest = with_identities(stored, seen.drop_last());
        let p = identities_of(mid);
        if first_where(rest, identities_of(seen.last().mid)) is None {
            crate::rows::first_where_first(rest, p);
            assert(rest.push(seen.last()).drop_last() =~= rest);
        }
    }
}

/// Keeps what a request shows for the first time.
pub fn apply_ingress_meta(
    meta: &mut ModuleMeta,
    usage: Option<ModuleUsage>,
    projection: &FlatProjection,
)
    ensures
        final(meta)@ == ingress_meta(old(meta)@, usage, projection@),
{
    broadcast use group_views;

    let ghost before = meta@;
    let ghost seen = projection@.identity_by_mid;
    let mut i: usize = 0;
    while i < projection.identity_by_mid.len()
        invariant
            i <= projection.identity_by_mid.len(),
            seen == views(projection.identity_by_mid@),
            meta@ == (ModuleMetaModel {
                block_identity_by_mid: with_identities(
                    before.block_identity_by_mid,
                    seen.take(i as int),
                ),
                ..before
            }),
        decreases projection.identity_by_mid.len() - i,
    {
        proof {
            take_next(seen, i as int);
        }
        let m = &projection.identity_by_mid[i];
        assert(seen[i as int] == m@);
        if find_row(&meta.block_identity_by_mid, &IdentitiesOf { mid: &m.mid }).is_none() {
            meta.block_identity_by_mid.push(m.dup());
        }
        i += 1;
    }
    proof {
        take_all(seen);
    }
    match usage {
        Some(u) => {
            if u.is_non_zero() {
                meta.last_usage = Some(u);
            }
        },
        None => {},
    }
}

/// The usage that a pass goes by.
pub open spec fn usage_in_effect(
    request: Option<ModuleUsage>,
    persisted: Option<ModuleUsage>,
) -> ModuleUsage {
    match reported_usage(request) {
        Some(u) => u,
        None => match persisted {
            Some(u) => u,
            None => ModuleUsage { current_total_input_tokens: 0, context_limit_tokens: 0 },
        },
    }
}

/// Finds the usage that a pass goes by.
pub fn effective_usage(request: Option<ModuleUsage>, persisted: Option<ModuleUsage>) -> (r:
    ModuleUsage)
    ensures
        r == usage_in_effect(request, persisted),
{
    match request {
        Some(u) => {
            if u.is_non_zero() {
                return u;
            }
        },
        None => {},
    }
    match persisted {
        Some(u) => u,
        None => ModuleUsage { current_total_input_tokens: 0, context_limit_tokens: 0 },
    }
}

/// The context limit that a pass goes by, in tokens.
pub fn effective_context_limit_tokens(usage: &ModuleUsage) -> (r: u64)
    ensures
        r == (if usage.context_limit_tokens > 0 {
            usage.context_limit_tokens
        } else {
            200_000
        }),
{
    if usage.context_limit_tokens > 0 {
        usage.context_limit_tokens
    } else {
        200_000
    }
}

// --- the scheduler --------------------------------------------------------------------

/// Whether reductions may be produced.
pub open spec fn gate_open(pass: PassDecision, hard_advisory: bool) -> bool {
    pass != PassDecision::Defer || hard_advisory
}

/// Tells whether reductions may be produced.
pub fn producer_gate(pass: PassDecision, hard_advisory: bool) -> (r: bool)
    ensures
        r == gate_open(pass, hard_advisory),
{
    pass != PassDecision::Defer || hard_advisory
}

/// How hard a decision of the scheduler lets a selection cut.
pub open spec fn class_of(pass: PassDecision) -> PassClass {
    match pass {
        PassDecision::Force85 | PassDecision::Emergency95 => PassClass::EmergencyForce,
        PassDecision::Defer | PassDecision::Execute => PassClass::Execute,
    }
}

/// Tells how hard a selection may cut.
pub fn selection_pass_class(pass: PassDecision) -> (r: PassClass)
    ensures
        r == class_of(pass),
{
    match pass {
        PassDecision::Force85 | PassDecision::Emergency95 => PassClass::EmergencyForce,
        PassDecision::Defer | PassDecision::Execute => PassClass::Execute,
    }
}

/// Reads a decision that was put off.
pub fn deferred_from_meta(state: &DeferredExecuteState) -> (r: DeferredExecute)
    ensures
        r@.reason == state@.reason,
{
    DeferredExecute { reason: state.reason.clone() }
}

/// Keeps a decision that was put off.
pub fn deferred_to_meta(state: &DeferredExecute) -> (r: DeferredExecuteState)
    ensures
        r@.reason == state@.reason,
{
    DeferredExecuteState { reason: state.reason.clone() }
}

/// Since when an emergency drains the tail.
pub open spec fn latch_of(meta: ModuleMetaModel) -> LatchState {
    LatchState {
        active_since_ms: if meta.emergency_drain_active {
            Some(
                if meta.emergency_drain_entered_at_ms < 0 {
                    0
                } else {
                    meta.emergency_drain_entered_at_ms as u64
                },
            )
        } else {
            None
        },
    }
}

/// Reads since when an emergency drains the tail.
pub fn latch_from_meta(meta: &ModuleMeta) -> (r: LatchState)
    ensures
        r == latch_of(meta@),
{
    LatchState {
        active_since_ms: if meta.emergency_drain_active {
            Some(
                if meta.emergency_drain_entered_at_ms < 0 {
                    0
                } else {
                    meta.emergency_drain_entered_at_ms as u64
                },
            )
        } else {
            None
        },
    }
}

/// A time as a signed column holds it.
pub open spec fn signed_time(ms: u64) -> i64 {
    if ms > i64::MAX {
        (ms - 0x1_0000_0000_0000_0000) as i64
    } else {
        ms as i64
    }
}

/// The record after the scheduler decided.
pub open spec fn scheduled_meta(meta: ModuleMetaModel, outcome: SchedulerOutcomeModel) ->
    ModuleMetaModel {
    ModuleMetaModel {
        deferred_execute_state: if outcome.pass == PassDecision::Defer {
            match outcome.deferred_execute {
                Some(d) => Some(DeferredExecuteStateModel { reason: d.reason }),
                None => None,
            }
        } else {
            None
        },
        emergency_drain_active: outcome.drain_latch.active_since_ms is Some,
        emergency_drain_entered_at_ms: match outcome.drain_latch.active_since_ms {
            Some(ms) => signed_time(ms),
            None => 0,
        },
        ..meta
    }
}

/// Keeps what the scheduler decided.
pub fn apply_scheduler_meta(meta: &mut ModuleMeta, outcome: &SchedulerOutcome)
    ensures
        final(meta)@ == scheduled_meta(old(meta)@, outcome@),
{
    meta.deferred_execute_state = if outcome.pass == PassDecision::Defer {
        match &outcome.deferred_execute {
            Some(d) => Some(deferred_to_meta(d)),
            None => None,
        }
    } else {
        None
    };
    meta.emergency_drain_active = outcome.drain_latch.active_since_ms.is_some();
    meta.emergency_drain_entered_at_ms = match outcome.drain_latch.active_since_ms {
        Some(ms) => if ms > 0x7fff_ffff_ffff_ffff {
            ((ms as i128) - 0x1_0000_0000_0000_0000) as i64
        } else {
            ms as i64
        },
        None => 0,
    };
}

/// Whether a tool call has its result.
pub open spec fn arc_completed(arc: Seq<char>) -> spec_fn(FlatBlockModel) -> bool {
    |b: FlatBlockModel|
        b.kind_tag == "tool_result"@ && !b.provider_executed && b.arc_id == Some(arc)
}

/// The ordinal of the newest message of the assistant.
pub open spec fn newest_assistant(live: Seq<FlatBlockModel>) -> Option<u64>
    decreases live.len(),
{
    if live.len() == 0 {
        None
    } else {
        let rest = newest_assistant(live.drop_last());
        let b = live.last();
        if b.role != "assistant"@ {
            rest
        } else {
            match rest {
                Some(n) => if n >= b.ordinal {
                    Some(n)
                } else {
                    Some(b.ordinal)
                },
                None => Some(b.ordinal),
            }
        }
    }
}

/// A tool call of the assistant's newest message that waits for its result.
pub open spec fn open_call(live: Seq<FlatBlockModel>, newest: u64) -> spec_fn(
    FlatBlockModel,
) -> bool {
    |b: FlatBlockModel|
        b.role == "assistant"@ && b.ordinal == newest && b.kind_tag == "tool_call"@
            && !b.provider_executed && (b.arc_id matches Some(arc) && first_where(
            live,
            arc_completed(arc),
        ) is None)
}

/// Whether the conversation ends in the middle of a tool use.
pub open spec fn mid_tool_use(live: Seq<FlatBlockModel>) -> bool {
    match newest_assistant(live) {
        Some(newest) => first_where(live, open_call(live, newest)) is Some,
        None => false,
    }
}

/// Accepts the result of a tool call.
pub struct ArcCompleted<'a> {
    pub arc: &'a str,
}

impl<'a> RowTest<FlatBlock> for ArcCompleted<'a> {
    open spec fn accepts(&self) -> spec_fn(FlatBlockModel) -> bool {
        arc_completed(self.arc@)
    }

    fn test(&self, row: &FlatBlock) -> (r: bool) {
        same_text(&row.kind_tag, "tool_result") && !row.provider_executed && match &row.arc_id {
            Some(arc) => same_text(arc, self.arc),
            None => false,
        }
    }
}

/// Accepts tool calls that wait for their result.
pub struct OpenCall<'a> {
    pub live: &'a Vec<FlatBlock>,
    pub newest: u64,
}

impl<'a> RowTest<FlatBlock> for OpenCall<'a> {
    open spec fn accepts(&self) -> spec_fn(FlatBlockModel) -> bool {
        open_call(views(self.live@), self.newest)
    }

    fn test(&self, row: &FlatBlock) -> (r: bool) {
        same_text(&row.role, "assistant") && row.ordinal == self.newest && same_text(
            &row.kind_tag,
            "tool_call",
        ) && !row.provider_executed && match &row.arc_id {
            Some(arc) => find_row(self.live, &ArcCompleted { arc }).is_none(),
            None => false,
        }
    }
}

/// Reads what the scheduler needs of the end of the conversation.
pub fn tail_state_from_live(live: &Vec<FlatBlock>) -> (r: TailState)
    ensures
        r.mid_tool_use == mid_tool_use(views(live@)),
{
    broadcast use group_views;

    let ghost all = views(live@);
    let mut newest: Option<u64> = None;
    let mut i: usize = 0;
    while i < live.len()
        invariant
            i <= live.len(),
            all == views(live@),
            newest == newest_assistant(all.take(i as int)),
        decreases live.len() - i,
    {
        proof {
            take_next(all, i as int);
        }
        assert(all[i as int] == live@[i as int]@);
        if same_text(&live[i].role, "assistant") {
            newest = match newest {
                Some(n) => if n >= live[i].ordinal {
                    Some(n)
                } else {
                    Some(live[i].ordinal)
                },
                None => Some(live[i].ordinal),
            };
        }
        i += 1;
    }
    proof {
        take_all(all);
    }
    match newest {
        Some(n) => TailState {
            mid_tool_use: find_row(live, &OpenCall { live, newest: n }).is_some(),
        },
        None => TailState { mid_tool_use: false },
    }
}

// --- selection ------------------------------------------------------------------------

/// What a selection reads of a block's kind.
pub open spec fn selected_kind(kind: CkKindModel) -> SelKindModel {
    match kind {
        CkKindModel::ToolCall { id: _, name, input, provider_executed: _ } =>
            SelKindModel::ToolCall { name, input },
        CkKindModel::ToolResult { id: _, tool_name, output: _, provider_executed: _ } =>
            SelKindModel::ToolResult { tool_name },
        CkKindModel::Reasoning { text: _, signature: _ } => SelKindModel::Reasoning,
        CkKindModel::Text { text: _ } => SelKindModel::Text,
        CkKindModel::RedactedReasoning { data: _ } => SelKindModel::RedactedReasoning,
        CkKindModel::Media(_) => SelKindModel::Media,
        CkKindModel::Opaque(_) => SelKindModel::Opaque,
    }
}

/// What a selection reads of a block.
pub open spec fn selected_item(b: FlatBlockModel) -> SelItemModel {
    SelItemModel {
        id: b.id,
        ordinal: b.ordinal,
        kind: selected_kind(b.wire.kind),
        provider_executed: b.provider_executed,
        byte_size: vstd::utf8::encode_utf8(b.bytes).len() as usize,
        arc_id: b.arc_id,
    }
}

/// Reads what a selection needs of a block.
pub fn sel_item_from_flat(block: &FlatBlock) -> (r: SelItem)
    ensures
        r@ == selected_item(block@),
{
    let kind = match &block.wire.kind {
        CkKind::ToolCall { id: _, name, input, provider_executed: _ } => SelKind::ToolCall {
            name: name.clone(),
            input: input.clone(),
        },
        CkKind::ToolResult { id: _, tool_name, output: _, provider_executed: _ } =>
            SelKind::ToolResult { tool_name: tool_name.clone() },
        CkKind::Reasoning { text: _, signature: _ } => SelKind::Reasoning,
        CkKind::Text { text: _ } => SelKind::Text,
        CkKind::RedactedReasoning { data: _ } => SelKind::RedactedReasoning,
        CkKind::Media(_) => SelKind::Media,
        CkKind::Opaque(_) => SelKind::Opaque,
    };
    SelItem {
        id: block.id.clone(),
        ordinal: block.ordinal,
        kind,
        provider_executed: block.provider_executed,
        byte_size: block.bytes.as_str().as_bytes().len(),
        arc_id: opt_dup(&block.arc_id),
    }
}

/// The items of the tail.
pub open spec fn tail_items(live: Seq<FlatBlockModel>, coverage: Option<u64>) -> Seq<SelItemModel> {
    keep_where(live, tail_block(coverage)).map_values(|b: FlatBlockModel| selected_item(b))
}

/// Accepts blocks of the tail.
pub struct TailBlock {
    pub coverage: Option<u64>,
}

impl RowTest<FlatBlock> for TailBlock {
    open spec fn accepts(&self) -> spec_fn(FlatBlockModel) -> bool {
        tail_block(self.coverage)
    }

    fn test(&self, row: &FlatBlock) -> (r: bool) {
        is_tail(row.ordinal, self.coverage)
    }
}

/// Reads the items of the tail.
pub fn tail_sel_items(live: &Vec<FlatBlock>, coverage: Option<u64>) -> (r: Vec<SelItem>)
    ensures
        views(r@) == tail_items(views(live@), coverage),
{
    map_rows(
        &select_rows(live, &TailBlock { coverage }),
        sel_item_from_flat,
        Ghost(|b: FlatBlockModel| selected_item(b)),
    )
}

// --- shapes of the frozen units -------------------------------------------------------

/// Whether the frozen units are the single baseline of an older format.
pub open spec fn legacy_shape(core: CoreStateModel) -> bool {
    core.frozen_units.len() == 1 && core.frozen_units[0].key == "baseline"@
        && core.pending_changes.len() == 0
}

/// Tests whether the frozen units are the single baseline of an older format.
pub fn is_legacy_baseline(core: &CoreState) -> (r: bool)
    ensures
        r == legacy_shape(core@),
{
    if core.frozen_units.len() == 1 {
        assert(core@.frozen_units[0] == core.frozen_units@[0]@);
    }
    core.frozen_units.len() == 1 && same_text(&core.frozen_units[0].key, "baseline")
        && core.pending_changes.len() == 0
}

/// How many units have a key.
pub open spec fn units_with_key(units: Seq<crate::meta::FrozenUnitModel>, key: Seq<char>) -> nat
    decreases units.len(),
{
    if units.len() == 0 {
        0
    } else {
        units_with_key(units.drop_last(), key) + (if units.last().key == key {
            1nat
        } else {
            0nat
        })
    }
}

/// Whether a key is one that a pass freezes.
pub open spec fn known_key(key: Seq<char>) -> bool {
    key == "m0"@ || key == "m1"@ || starts(key, RED_KEY_PREFIX@)
}

/// Whether the frozen units are one history block, one delta block and reductions.
pub open spec fn current_shape(core: CoreStateModel) -> bool {
    &&& units_with_key(core.frozen_units, "m0"@) == 1
    &&& units_with_key(core.frozen_units, "m1"@) == 1
    &&& forall|i: int|
        0 <= i < core.frozen_units.len() ==> known_key((#[trigger] core.frozen_units[i]).key)
}

/// Tests whether the frozen units are one history block, one delta block and reductions.
pub fn valid_m0m1_shape(core: &CoreState) -> (r: bool)
    ensures
        r == current_shape(core@),
{
    broadcast use group_views;

    let ghost all = core@.frozen_units;
    let mut m0: usize = 0;
    let mut m1: usize = 0;
    let mut i: usize = 0;
    while i < core.frozen_units.len()
        invariant
            i <= core.frozen_units.len(),
            all == views(core.frozen_units@),
            m0 <= i,
            m1 <= i,
            m0 == units_with_key(all.take(i as int), "m0"@),
            m1 == units_with_key(all.take(i as int), "m1"@),
            forall|j: int| 0 <= j < i ==> known_key((#[trigger] all[j]).key),
            core@.frozen_units == all,
        decreases core.frozen_units.len() - i,
    {
        proof {
            take_next(all, i as int);
        }
        let key = &core.frozen_units[i].key;
        assert(all[i as int].key == key@);
        let is_m0: bool = same_text(key, "m0");
        let is_m1: bool = same_text(key, "m1");
        if !(is_m0 || is_m1 || starts_with(key, RED_KEY_PREFIX)) {
            assert(!known_key(all[i as int].key));
            return false;
        }
        if is_m0 {
            m0 += 1;
        }
        if is_m1 {
            m1 += 1;
        }
        i += 1;
    }
    proof {
        take_all(all);
    }
    m0 == 1 && m1 == 1
}

// --- cutting back after a revert ------------------------------------------------------

/// How many compartments, from the first on, end at a block of the conversation.
pub open spec fn surviving_prefix(
    compartments: Seq<StoredCompartmentModel>,
    live: Seq<FlatBlockModel>,
) -> nat
    decreases compartments.len(),
{
    if compartments.len() == 0 || first_where(
        live,
        block_with_id(compartments[0].end_message_id),
    ) is None {
        0
    } else {
        1 + surviving_prefix(compartments.drop_first(), live)
    }
}

/// A block with this id.
pub open spec fn block_with_id(id: Seq<char>) -> spec_fn(FlatBlockModel) -> bool {
    |b: FlatBlockModel| b.id == id
}

/// The sequence that a cut keeps: that of the last compartment before the first that ends at
/// no block of the conversation.
pub open spec fn kept_sequence(
    compartments: Seq<StoredCompartmentModel>,
    live: Seq<FlatBlockModel>,
) -> i64 {
    let n = surviving_prefix(compartments, live);
    if n == 0 {
        -1i64
    } else {
        compartments[n - 1].sequence
    }
}

/// Accepts the block with an id.
pub struct BlockWithId<'a> {
    pub id: &'a str,
}

impl<'a> RowTest<FlatBlock> for BlockWithId<'a> {
    open spec fn accepts(&self) -> spec_fn(FlatBlockModel) -> bool {
        block_with_id(self.id@)
    }

    fn test(&self, row: &FlatBlock) -> (r: bool) {
        same_text(&row.id, self.id)
    }
}

/// Tests whether the conversation holds a block.
pub fn holds_block(live: &Vec<FlatBlock>, id: &str) -> (r: bool)
    ensures
        r == (first_where(views(live@), block_with_id(id@)) is Some),
{
    find_row(live, &BlockWithId { id }).is_some()
}

/// Finds the sequence that a cut keeps.
pub fn surviving_revert_prefix_seq(compartments: &Vec<StoredCompartment>, live: &Vec<FlatBlock>) -> (r:
    i64)
    ensures
        r == kept_sequence(views(compartments@), views(live@)),
{
    let ghost all = views(compartments@);
    let mut n: usize = 0;
    let mut last: i64 = -1;
    assert(all.skip(0) =~= all);
    while n < compartments.len() && holds_block(live, &compartments[n].end_message_id)
        invariant
            n <= compartments.len(),
            all == views(compartments@),
            surviving_prefix(all, views(live@)) == n + surviving_prefix(
                all.skip(n as int),
                views(live@),
            ),
            last == (if n == 0 {
                -1i64
            } else {
                all[n - 1].sequence
            }),
        decreases compartments.len() - n,
    {
        assert(all.skip(n as int)[0] == compartments@[n as int]@);
        assert(all.skip(n as int).drop_first() =~= all.skip(n + 1));
        assert(all[n as int] == compartments@[n as int]@);
        last = compartments[n].sequence;
        n += 1;
    }
    proof {
        if n < compartments@.len() {
            assert(all.skip(n as int)[0] == compartments@[n as int]@);
        }
    }
    last
}

} // verus!
