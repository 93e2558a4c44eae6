//! The transform pass, driven from end to end.
//!
//! A pass asks its deciders and composers for answers. The ones below are small: they
//! flatten messages, render compartments and memories as plain text, and freeze what they
//! are handed.

use std::cell::Cell;
use std::collections::HashMap;

use magic_context::digest::stable_content_hash;
use magic_context::meta::{
    BlockIdentity, CoreState, FrozenSyntheticTodoPair, MidIdentity, ModuleMeta, ModuleUsage,
};
use magic_context::sessions::scan::Harness;
use magic_context::store::records::{StoredCompartment, StoredMemory};
use magic_context::store::McStore;
use magic_context::transform::errors::TransformError;
use magic_context::transform::ingress::{request_from_wire, tail_sel_items};
use magic_context::transform::machine::{
    transform_with_projection, Begun, Gated, PassSignals, PassStage, TransformPass, Working,
};
use magic_context::transform::output::{
    strip_reasoning_from_merged_assistants, ReductionRequest,
};
use magic_context::transform::pass::synth_region;
use magic_context::transform::reductions::red_unit;
use magic_context::transform::todo::InjectionOutcome;
use magic_context::transform::types::{
    CkIngressMessage, ClassifierInput, CoverageEnd, FlatBlock, FlatProjection, LegacyCkItemWire,
    M0Composition, M1Composition, PassClass, PassDecision, PassPlan, ReducedBlock,
    ReductionDecision, SchedulerOutcome, SelItem, SelKind, ServedFrom, StepAction, StepInput,
    TransformRequest, TransformRequestWire, TransformResponse, TransformStatus,
};
use magic_context::wire::{
    CkKind, CkOutputKind, CkToolOutput, CkWireBlock, CkWireMessage, HarnessMeta, ProviderExtras,
};

const M0_ID: &str = "mc_m0";
const M1_PLACEHOLDER: &str = "<no-delta/>";

// --- the deciders and composers ---------------------------------------------------------

struct Ctx {
    project_path: String,
    now_ms: i64,
    smart_drops: bool,
    cache_ttl_ms: i64,
    observed_last_response_at_ms: Option<i64>,
    injected_reductions: Vec<ReductionDecision>,
    /// How often a whole history was rendered.
    histories: Cell<usize>,
}

fn pctx(project: &str, now_ms: i64) -> Ctx {
    Ctx {
        project_path: project.to_string(),
        now_ms,
        smart_drops: false,
        cache_ttl_ms: 5 * 60 * 1000,
        observed_last_response_at_ms: None,
        injected_reductions: Vec::new(),
        histories: Cell::new(0),
    }
}

fn smart_pctx() -> Ctx {
    let mut ctx = pctx("git:proj", 0);
    ctx.smart_drops = true;
    ctx
}

fn block_bytes(block: &CkWireBlock) -> String {
    match &block.kind {
        CkKind::Text { text } => text.clone(),
        CkKind::Reasoning { text, .. } => text.clone(),
        CkKind::RedactedReasoning { data } => data.clone(),
        CkKind::ToolCall { name, input, .. } => format!("{name}({input})"),
        CkKind::ToolResult { output, .. } => match &output.kind {
            CkOutputKind::Text { text } => text.clone(),
            other => format!("{other:?}"),
        },
        other => format!("{other:?}"),
    }
}

fn project_messages(messages: &[CkIngressMessage]) -> Result<FlatProjection, String> {
    let mut projection = FlatProjection::default();
    let mut calls: HashMap<String, String> = HashMap::new();
    for message in messages {
        let mut blocks = Vec::new();
        for (index, block) in message.ck.content.iter().enumerate() {
            let id = format!("{}#{index}", message.mid);
            let mut provider_executed = false;
            let arc_id = match &block.kind {
                CkKind::ToolCall { id: call, provider_executed: outside, .. } => {
                    provider_executed = *outside;
                    calls.insert(call.clone(), id.clone());
                    Some(id.clone())
                }
                CkKind::ToolResult { id: call, provider_executed: outside, .. } => {
                    provider_executed = *outside;
                    match calls.get(call) {
                        Some(arc) => Some(arc.clone()),
                        None => return Err(format!("unpaired tool result {call}")),
                    }
                }
                CkKind::Media(_) | CkKind::Opaque(_) => {
                    return Err(format!("unsupported block {id}"));
                }
                _ => None,
            };
            let bytes = block_bytes(block);
            blocks.push(BlockIdentity {
                kind_tag: block.kind.tag().to_string(),
                byte_fingerprint: bytes.clone(),
            });
            projection.blocks.push(FlatBlock {
                id,
                mid: message.mid.clone(),
                ordinal: message.ordinal,
                block_index: index,
                synthetic: message.ck.meta.synthetic,
                role: message.ck.role.clone(),
                kind_tag: block.kind.tag().to_string(),
                provider_executed,
                arc_id,
                file_path: None,
                bytes,
                wire: block.clone(),
            });
        }
        if !message.ck.meta.synthetic {
            projection.identity_by_mid.push(MidIdentity {
                mid: message.mid.clone(),
                blocks,
            });
        }
    }
    Ok(projection)
}

fn fold_epoch(base: &str, workspace_fingerprint: &str) -> String {
    if workspace_fingerprint.is_empty() {
        base.to_string()
    } else {
        format!("{base}|{workspace_fingerprint}")
    }
}

fn m1_revision_signal(store: &McStore, project: &str, history: &[StoredCompartment]) -> u64 {
    let projects = [project.to_string()];
    stable_content_hash(&format!(
        "{}/{}/{}",
        history.last().map(|c| c.sequence).unwrap_or(0),
        store.max_memory_id(&projects).unwrap(),
        store.max_memory_mutation_id(&projects).unwrap(),
    ))
}

fn schedule(ctx: &Ctx, begun: &Begun) -> SchedulerOutcome {
    let usage = begun.start.usage;
    let limit = if usage.context_limit_tokens > 0 {
        usage.context_limit_tokens
    } else {
        200_000
    };
    let percentage = usage.current_total_input_tokens * 100 / limit;
    let wanted = if percentage >= 95 {
        PassDecision::Emergency95
    } else if percentage >= 85 {
        PassDecision::Force85
    } else if percentage >= 65 || !ctx.injected_reductions.is_empty() {
        PassDecision::Execute
    } else {
        PassDecision::Defer
    };
    let pass = if wanted == PassDecision::Execute && begun.start.tail_state.mid_tool_use {
        PassDecision::Defer
    } else {
        wanted
    };
    SchedulerOutcome {
        pass,
        idle_ttl_fired: match ctx.observed_last_response_at_ms {
            Some(at) => at > 0 && ctx.now_ms - at > ctx.cache_ttl_ms,
            None => false,
        },
        deferred_execute: None,
        drain_latch: begun.start.drain_latch,
    }
}

fn drop_block(id: &str) -> ReductionDecision {
    ReductionDecision {
        target_id: id.to_string(),
        kind: "drop".to_string(),
        payload: "[dropped]".to_string(),
    }
}

fn is_call(item: &SelItem, tool: Option<&str>) -> bool {
    match &item.kind {
        SelKind::ToolCall { name, .. } => tool.is_none_or(|wanted| name == wanted),
        _ => false,
    }
}

fn select_reductions(ctx: &Ctx, gated: &Gated) -> Vec<ReductionDecision> {
    if !ctx.injected_reductions.is_empty() {
        return ctx.injected_reductions.clone();
    }
    let gate = &gated.gate;
    let mut out: Vec<ReductionDecision> =
        gate.agent_drop_ids.iter().map(|id| drop_block(id)).collect();
    let completed = |arc: &str| {
        gate.tail
            .iter()
            .any(|i| matches!(i.kind, SelKind::ToolResult { .. }) && i.arc_id.as_deref() == Some(arc))
    };
    let calls: Vec<&SelItem> = gate
        .tail
        .iter()
        .filter(|i| is_call(i, None) && completed(i.arc_id.as_deref().unwrap()))
        .collect();
    for (n, call) in calls.iter().enumerate() {
        let last = n + 1 == calls.len();
        let superseded = ctx.smart_drops
            && is_call(call, Some("todowrite"))
            && calls[n + 1..].iter().any(|later| is_call(later, Some("todowrite")));
        let forced = gate.selection_class == PassClass::EmergencyForce && !last;
        let aged = call.ordinal <= gate.last_execute_ordinal;
        let frozen = gate.frozen_targets.contains(&call.id);
        if (superseded || forced || aged) && !frozen {
            for item in &gate.tail {
                if item.arc_id == call.arc_id {
                    out.push(drop_block(&item.id));
                }
            }
        }
    }
    out
}

fn classify(input: &ClassifierInput) -> PassPlan {
    if !input.initialized {
        PassPlan::Hard
    } else if input.is_legacy_baseline {
        PassPlan::MigrateHard
    } else if !input.valid_m0m1_shape {
        PassPlan::Reject("neither m0 and m1 nor a baseline".to_string())
    } else if input.render_config_changed
        || input.hard_fold_requested
        || (input.reconcile_pending && !input.boundary_present)
    {
        PassPlan::Hard
    } else if input.boundary_present && (input.m1_revision_changed || input.reductions_pending) {
        PassPlan::Soft
    } else {
        PassPlan::Defer
    }
}

fn capture_todos(tail: &[SelItem], kept: &Option<String>) -> Option<String> {
    for item in tail.iter().rev() {
        if let SelKind::ToolCall { name, input } = &item.kind {
            if name == "todowrite" {
                return Some(input.clone());
            }
        }
    }
    kept.clone()
}

fn memory_text(memories: &[StoredMemory]) -> String {
    memories.iter().map(|m| format!("<memory>{}</memory>", m.content)).collect()
}

fn compose_m0(
    store: &McStore,
    ctx: &Ctx,
    compartments: &[StoredCompartment],
) -> Result<M0Composition, TransformError> {
    ctx.histories.set(ctx.histories.get() + 1);
    let mut body = String::new();
    for (n, c) in compartments.iter().enumerate() {
        if n > 0 && c.start_message != compartments[n - 1].end_message + 1 {
            return Err(TransformError::CoverageGap(format!("gap before {}", c.sequence)));
        }
        body.push_str(&format!("<c title=\"{}\">{}</c>", c.title, c.content));
    }
    let memories = store.load_active_memories(&ctx.project_path, ctx.now_ms);
    let projects = [ctx.project_path.clone()];
    Ok(M0Composition {
        m0_bytes: format!(
            "{}<session-history>{body}</session-history>",
            memory_text(&memories)
        ),
        boundary_id: compartments.last().map(|c| c.end_message_id.clone()).unwrap_or_default(),
        coverage_ordinal: compartments.last().map(|c| c.end_message as u64),
        first_covered_ordinal: compartments.first().map(|c| c.start_message as u64),
        folded_compartment_seq: compartments.last().map(|c| c.sequence).unwrap_or(0),
        rendered_memory_ids: memories.iter().map(|m| m.id).collect(),
        memory_mutation_cursor: store.max_memory_mutation_id(&projects).unwrap(),
        max_memory_id: store.max_memory_id(&projects).unwrap(),
    })
}

fn compose_m1(store: &McStore, ctx: &Ctx, session: &str, meta: &ModuleMeta) -> M1Composition {
    let projects = [ctx.project_path.clone()];
    let fresh: Vec<StoredCompartment> = store
        .load_compartments(session)
        .into_iter()
        .filter(|c| c.sequence > meta.folded_compartment_seq)
        .collect();
    let memories: Vec<StoredMemory> = store
        .load_active_memories(&ctx.project_path, meta.expiry_cutoff_ms)
        .into_iter()
        .filter(|m| m.id > meta.max_memory_id)
        .collect();
    let updates = store.memory_mutations_for_render(
        &projects,
        meta.memory_mutation_cursor,
        &meta.rendered_memory_ids,
    ).unwrap();
    let mut body = String::new();
    if !fresh.is_empty() {
        body.push_str("<new-compartments>");
        for c in &fresh {
            body.push_str(&format!("<c title=\"{}\">{}</c>", c.title, c.content));
        }
        body.push_str("</new-compartments>");
    }
    if !memories.is_empty() {
        body.push_str(&format!("<new-memories>{}</new-memories>", memory_text(&memories)));
    }
    for update in &updates {
        body.push_str(&format!(
            "<memory-update id=\"{}\">{}</memory-update>",
            update.target_memory_id,
            update.new_content.clone().unwrap_or_default()
        ));
    }
    if body.is_empty() {
        body.push_str(M1_PLACEHOLDER);
    }
    M1Composition {
        body,
        new_coverage: fresh.last().map(|c| CoverageEnd {
            boundary_id: c.end_message_id.clone(),
            ordinal: c.end_message as u64,
        }),
    }
}

fn step(core: &CoreState, input: &StepInput) -> CoreState {
    let mut core = core.clone();
    for unit in &input.rendered_units {
        match core.frozen_units.iter().position(|u| u.key == unit.key) {
            Some(at) => core.frozen_units[at] = unit.clone(),
            None => core.frozen_units.push(unit.clone()),
        }
    }
    if let Some(id) = &input.new_boundary_id {
        core.boundary_id = id.clone();
    }
    match input.proposed {
        StepAction::Hard => {
            core.version += 1;
            core.reconcile_pending = false;
        }
        StepAction::Soft => core.version += 1,
        StepAction::SoftPlus => {
            core.reconcile_pending = !core.boundary_id.is_empty() && input.boundary_present == "-";
        }
    }
    core
}

fn todo_pair(state: &str) -> FrozenSyntheticTodoPair {
    let call_id = format!("todo-{}", stable_content_hash(state));
    let meta = HarnessMeta {
        synthetic: true,
        ..Default::default()
    };
    FrozenSyntheticTodoPair {
        call_id: call_id.clone(),
        anchor_mid: None,
        assistant_msg: CkWireMessage::from_parts(
            "assistant",
            vec![CkWireBlock::bare(CkKind::ToolCall {
                id: call_id.clone(),
                name: "todowrite".to_string(),
                input: state.to_string(),
                provider_executed: false,
            })],
            None,
            ProviderExtras::new(),
            meta.clone(),
        ),
        tool_msg: CkWireMessage::from_parts(
            "tool",
            vec![CkWireBlock::bare(CkKind::ToolResult {
                id: call_id,
                tool_name: "todowrite".to_string(),
                output: CkToolOutput::bare(CkOutputKind::Text {
                    text: state.to_string(),
                }),
                provider_executed: false,
            })],
            None,
            ProviderExtras::new(),
            meta,
        ),
    }
}

fn injection(working: &Working) -> InjectionOutcome {
    let bust = !matches!(working.plan, PassPlan::Defer);
    let existing = &working.work.meta.synthetic_todo;
    let open = match &working.work.meta.last_todo_state {
        Some(state) if state.contains("\"pending\"") => Some(state),
        _ => None,
    };
    match (bust, open, existing) {
        (false, _, _) => InjectionOutcome::Nothing,
        (true, None, Some(_)) => InjectionOutcome::Clear,
        (true, None, None) => InjectionOutcome::Nothing,
        (true, Some(state), _) => {
            let pair = todo_pair(state);
            match existing {
                Some(old) if old.call_id == pair.call_id => InjectionOutcome::Keep,
                _ => InjectionOutcome::Replace(pair),
            }
        }
    }
}

fn reduced_block(request: &ReductionRequest) -> ReducedBlock {
    let kind = match &request.wire.kind {
        CkKind::ToolCall { id, name, provider_executed, .. } => CkKind::ToolCall {
            id: id.clone(),
            name: name.clone(),
            input: "{}".to_string(),
            provider_executed: *provider_executed,
        },
        CkKind::ToolResult { id, tool_name, provider_executed, .. } => CkKind::ToolResult {
            id: id.clone(),
            tool_name: tool_name.clone(),
            output: CkToolOutput::bare(CkOutputKind::Text {
                text: request.payload.clone(),
            }),
            provider_executed: *provider_executed,
        },
        _ => CkKind::Text {
            text: request.payload.clone(),
        },
    };
    ReducedBlock {
        id: request.id.clone(),
        wire: CkWireBlock::bare(kind),
    }
}

/// Drives a pass to its end.
fn transform(
    store: &mut McStore,
    request: &TransformRequest,
    ctx: &Ctx,
) -> Result<TransformResponse, TransformError> {
    let session = request.session_id.as_str();
    let mut pass = transform_with_projection(
        request.clone(),
        ctx.project_path.clone(),
        M1_PLACEHOLDER.to_string(),
        ctx.now_ms,
    );
    while !matches!(pass.stage, PassStage::Served(_) | PassStage::Failed(_)) {
        pass = match &pass.stage {
            PassStage::Project => {
                let projection = project_messages(&request.messages);
                pass.projected(store, projection)
            }
            PassStage::Signal(begun) => {
                let start = &begun.value.start;
                let signals = PassSignals {
                    render_config: fold_epoch(&request.render_config, &start.workspace_fingerprint),
                    m1_digest: m1_revision_signal(
                        store,
                        &ctx.project_path,
                        &store.load_compartments(session),
                    ),
                    outcome: schedule(ctx, &begun.value),
                };
                pass.signalled(signals)
            }
            PassStage::Select(gated) => {
                let reductions = select_reductions(ctx, &gated.value);
                pass.selected(reductions)
            }
            PassStage::Plan(chosen) => {
                let plan = classify(&chosen.value.input);
                let gated = &chosen.value.gated;
                let captured = capture_todos(&gated.gate.tail, &gated.begun.start.meta.last_todo_state);
                pass.planned(plan, captured)
            }
            PassStage::Compose(_) => {
                let comp = compose_m0(store, ctx, &store.load_compartments(session));
                pass.composed(store, comp)
            }
            PassStage::Recompose(at) => {
                let history = &at.value.history;
                let comp = compose_m0(store, ctx, history);
                let digest = m1_revision_signal(store, &ctx.project_path, history);
                pass.recomposed(comp, digest)
            }
            PassStage::FreezeHistory(at) => {
                let on = &at.value.on;
                let core = step(&on.work.core, &at.value.input);
                let longer: Vec<SelItem> = tail_sel_items(
                    &on.chosen.gated.begun.start.live,
                    at.value.comp.coverage_ordinal,
                );
                let recaptured = capture_todos(&longer, &on.work.meta.last_todo_state);
                pass.stepped(core, recaptured)
            }
            PassStage::ComposeDelta(working) => {
                let delta = compose_m1(store, ctx, session, &working.value.work.meta);
                pass.delta_composed(Ok(delta))
            }
            PassStage::FreezeDelta(at) => {
                let core = step(&at.value.on.work.core, &at.value.input);
                pass.stepped(core, None)
            }
            PassStage::Replay(at) => {
                let core = step(&at.value.on.work.core, &at.value.input);
                pass.stepped(core, None)
            }
            PassStage::Inject(working) => {
                let outcome = injection(&working.value);
                pass.injected(outcome)
            }
            PassStage::Render(rendering) => {
                let reduced: Vec<ReducedBlock> =
                    rendering.value.wanted.iter().map(reduced_block).collect();
                let strips = request.serializer_profile == "opencode-ai-sdk";
                pass.rendered(store, reduced, strips)
            }
            PassStage::Served(_) | PassStage::Failed(_) => unreachable!(),
        };
    }
    match pass.stage {
        PassStage::Served(done) => Ok(done.value.response),
        PassStage::Failed(e) => Err(e),
        _ => unreachable!(),
    }
}

// --- building conversations -------------------------------------------------------------

fn text_from_message(message: &CkWireMessage) -> Option<&str> {
    message.content.first().and_then(first_block_text)
}

fn todo_list(list: &[(&str, &str, &str)]) -> String {
    let items: Vec<String> = list
        .iter()
        .map(|(content, status, priority)| {
            format!(
                "{{\"content\":\"{content}\",\"status\":\"{status}\",\"priority\":\"{priority}\"}}"
            )
        })
        .collect();
    format!("[{}]", items.join(","))
}

fn run(s: &mut McStore, req: &TransformRequest, d: &[ReductionDecision]) -> TransformResponse {
    let mut ctx = pctx("git:proj", 0);
    ctx.injected_reductions = d.to_vec();
    transform(s, req, &ctx).unwrap()
}

fn spine() -> Vec<ReductionDecision> {
    Vec::new()
}

/// A compartment that covers the ordinals `start..=end` and ends at the block `end_id`.
fn comp(seq: i64, start: i64, end: i64, end_id: &str, p1: &str) -> StoredCompartment {
    StoredCompartment {
        sequence: seq,
        start_message: start,
        end_message: end,
        end_message_id: target_id(end_id),
        title: format!("C{seq}"),
        content: p1.to_string(),
        p1: Some(p1.to_string()),
        importance: 50,
        ..Default::default()
    }
}

fn text_message(id: &str, text: &str) -> CkWireMessage {
    CkWireMessage::from_parts(
        "user",
        vec![CkWireBlock::bare(CkKind::Text {
            text: text.to_string(),
        })],
        None,
        ProviderExtras::new(),
        HarnessMeta {
            harness_id: Some(id.to_string()),
            ..Default::default()
        },
    )
}

fn item(id: &str, ordinal: u64, bytes: &str) -> CkIngressMessage {
    CkIngressMessage {
        mid: id.to_string(),
        ordinal,
        ck: text_message(id, bytes),
    }
}

fn system_item(id: &str, ordinal: u64, bytes: &str) -> CkIngressMessage {
    CkIngressMessage {
        mid: id.to_string(),
        ordinal,
        ck: CkWireMessage::from_parts(
            "system",
            vec![CkWireBlock::bare(CkKind::Text {
                text: bytes.to_string(),
            })],
            None,
            ProviderExtras::new(),
            HarnessMeta::default(),
        ),
    }
}

fn flat_id(mid: &str) -> String {
    format!("{mid}#0")
}

fn target_id(id: &str) -> String {
    if id.contains('#') {
        id.to_string()
    } else {
        flat_id(id)
    }
}

fn req(session: &str, cfg: &str, messages: Vec<CkIngressMessage>) -> TransformRequest {
    TransformRequest {
        kind: "transform".to_string(),
        v: 2,
        serializer_profile: "owned-llmrunner".to_string(),
        session_id: session.to_string(),
        render_config: cfg.to_string(),
        full_array_fingerprint: None,
        messages,
        tail_delta: None,
        usage: None,
        provider_error: None,
    }
}
fn with_usage(
    mut request: TransformRequest,
    current_total_input_tokens: u64,
    context_limit_tokens: u64,
) -> TransformRequest {
    request.usage = Some(ModuleUsage {
        current_total_input_tokens,
        context_limit_tokens,
    });
    request
}

fn todowrite_arc(mid: &str, call_ordinal: u64) -> Vec<CkIngressMessage> {
    vec![
        todowrite_call(mid, call_ordinal, "[]".to_string()),
        tool_result(
            &format!("{mid}_result"),
            call_ordinal + 1,
            &format!("call_{mid}"),
            "todo output",
        ),
    ]
}

fn synthetic_text(r: &TransformResponse, index: usize) -> &str {
    text_from_message(
        r.messages()
            .iter()
            .filter(|m| m.meta.synthetic)
            .nth(index)
            .unwrap(),
    )
    .unwrap()
}

fn m0_bytes(r: &TransformResponse) -> &str {
    synthetic_text(r, 0)
}
fn m1_bytes(r: &TransformResponse) -> &str {
    synthetic_text(r, 1)
}
fn tail_ids(r: &TransformResponse) -> Vec<&str> {
    r.messages()
        .iter()
        .filter(|m| !m.meta.synthetic)
        .map(|m| m.meta.harness_id.as_deref().unwrap_or(""))
        .collect()
}

fn assistant_tool_call(mid: &str, ordinal: u64, call_id: &str) -> CkIngressMessage {
    CkIngressMessage {
        mid: mid.to_string(),
        ordinal,
        ck: CkWireMessage::from_parts(
            "assistant",
            vec![CkWireBlock::bare(CkKind::ToolCall {
                id: call_id.to_string(),
                name: "read".to_string(),
                input: r#"{"path":"a.txt"}"#.to_string(),
                provider_executed: false,
            })],
            None,
            ProviderExtras::new(),
            HarnessMeta {
                harness_id: Some(mid.to_string()),
                ..Default::default()
            },
        ),
    }
}

fn tool_result(mid: &str, ordinal: u64, call_id: &str, text: &str) -> CkIngressMessage {
    CkIngressMessage {
        mid: mid.to_string(),
        ordinal,
        ck: CkWireMessage::from_parts(
            "tool",
            vec![CkWireBlock::bare(CkKind::ToolResult {
                id: call_id.to_string(),
                tool_name: "read".to_string(),
                output: CkToolOutput::bare(CkOutputKind::Text {
                    text: text.to_string(),
                }),
                provider_executed: false,
            })],
            None,
            ProviderExtras::new(),
            HarnessMeta {
                harness_id: Some(mid.to_string()),
                ..Default::default()
            },
        ),
    }
}

fn todowrite_call(mid: &str, ordinal: u64, todos: String) -> CkIngressMessage {
    CkIngressMessage {
        mid: mid.to_string(),
        ordinal,
        ck: CkWireMessage::from_parts(
            "assistant",
            vec![CkWireBlock::bare(CkKind::ToolCall {
                id: format!("call_{mid}"),
                name: "todowrite".to_string(),
                input: format!("{{\"todos\":{todos}}}"),
                provider_executed: false,
            })],
            None,
            ProviderExtras::new(),
            HarnessMeta {
                harness_id: Some(mid.to_string()),
                ..Default::default()
            },
        ),
    }
}

fn empty_message(mid: &str, ordinal: u64) -> CkIngressMessage {
    CkIngressMessage {
        mid: mid.to_string(),
        ordinal,
        ck: CkWireMessage::from_parts(
            "user",
            Vec::new(),
            None,
            ProviderExtras::new(),
            HarnessMeta {
                harness_id: Some(mid.to_string()),
                ..Default::default()
            },
        ),
    }
}

fn message_index(r: &TransformResponse, harness_id: &str) -> usize {
    r.messages()
        .iter()
        .position(|m| !m.meta.synthetic && m.meta.harness_id.as_deref() == Some(harness_id))
        .unwrap_or_else(|| panic!("message {harness_id} not found"))
}

fn synthetic_todo_index(r: &TransformResponse) -> usize {
    r.messages()
        .iter()
        .position(|m| {
            m.meta.synthetic
                && matches!(
                    m.content.first().map(|block| &block.kind),
                    Some(CkKind::ToolCall { name, .. }) if name == "todowrite"
                )
        })
        .expect("synthetic todowrite assistant message not found")
}

fn synthetic_todo_call_id(r: &TransformResponse) -> String {
    let msg = &r.messages()[synthetic_todo_index(r)];
    match &msg.content[0].kind {
        CkKind::ToolCall { id, .. } => id.clone(),
        other => panic!("expected synthetic todowrite ToolCall, got {other:?}"),
    }
}

fn prefix_through_synthetic_todo(r: &TransformResponse) -> Vec<CkWireMessage> {
    let end = synthetic_todo_index(r) + 1;
    r.messages()[..=end]
        .iter()
        .map(|m| m.clone())
        .collect()
}

fn synthetic_todo_pair_bytes(r: &TransformResponse) -> (CkWireMessage, CkWireMessage) {
    let i = synthetic_todo_index(r);
    (
        r.messages()[i].clone(),
        r.messages()[i + 1].clone(),
    )
}

#[test]
fn enforcement_rejects_drift_duplicates_and_vanished_reduction_targets() {
    let mut s = McStore::new();
    run(&mut s, &req("ses", "cfg0", vec![item("a", 1, "one")]), &spine());
    let drift = transform(&mut s,
        &req("ses", "cfg0", vec![item("a", 1, "two")]),
        &pctx("git:proj", 0),
    )
    .unwrap_err();
    assert!(matches!(drift, TransformError::IdentityDrift(mid) if mid == "a"));

    let dup = transform(&mut s,
        &req(
            "dup",
            "cfg0",
            vec![item("same", 1, "x"), item("same", 2, "y")],
        ),
        &pctx("git:proj", 0),
    )
    .unwrap_err();
    assert!(matches!(dup, TransformError::DuplicateBlockId(id) if id == "same#0"));
    let mut s = McStore::new();
    let one_block = vec![item("live", 1, "only block")];
    let projection = project_messages(&one_block).unwrap();
    let core = CoreState {
        frozen_units: vec![
            synth_region("m0", "BASE".to_string()),
            synth_region("m1", M1_PLACEHOLDER.to_string()),
            red_unit(&reduce("live#1", "drop", "[dropped 1]")),
        ],
        ..Default::default()
    };
    let meta = ModuleMeta {
        initialized: true,
        block_identity_by_mid: projection.identity_by_mid,
        ..Default::default()
    };
    s.commit("vanish", None, &core, &meta).unwrap();
    let vanished = transform(&mut s,
        &req("vanish", "cfg0", one_block),
        &pctx("git:proj", 0),
    )
    .unwrap_err();
    assert!(matches!(
        vanished,
        TransformError::FrozenRedTargetVanish(id) if id == "live#1"
    ));
}

#[test]
fn usage_non_zero_wins_and_absent_or_zero_falls_back_to_persisted() {
    let mut s = McStore::new();
    let mut first = req("usage", "cfg0", vec![item("a", 1, "x")]);
    first.usage = Some(ModuleUsage {
        current_total_input_tokens: 100,
        context_limit_tokens: 1000,
    });
    run(&mut s, &first, &spine());
    assert_eq!(
        s.load("usage").meta.last_usage,
        Some(ModuleUsage {
            current_total_input_tokens: 100,
            context_limit_tokens: 1000,
        })
    );

    let mut lower = req("usage", "cfg0", vec![item("a", 1, "x")]);
    lower.usage = Some(ModuleUsage {
        current_total_input_tokens: 50,
        context_limit_tokens: 1000,
    });
    run(&mut s, &lower, &spine());
    assert_eq!(
        s.load("usage")
            .meta
            .last_usage
            .unwrap()
            .current_total_input_tokens,
        50,
        "a non-zero decrease is accepted instead of max-merged"
    );

    let absent = req("usage", "cfg0", vec![item("a", 1, "x")]);
    run(&mut s, &absent, &spine());
    assert_eq!(
        s.load("usage")
            .meta
            .last_usage
            .unwrap()
            .current_total_input_tokens,
        50,
        "absent usage keeps the persisted value for restart continuity"
    );

    let mut zero = req("usage", "cfg0", vec![item("a", 1, "x")]);
    zero.usage = Some(ModuleUsage {
        current_total_input_tokens: 0,
        context_limit_tokens: 0,
    });
    run(&mut s, &zero, &spine());
    assert_eq!(
        s.load("usage")
            .meta
            .last_usage
            .unwrap()
            .current_total_input_tokens,
        50,
        "all-zero usage also falls back to persisted"
    );
}

#[test]
fn agent_drop_ids_freeze_add_only_through_flat_ids() {
    let mut s = McStore::new();
    let request = req("agent-drop", "cfg0", vec![item("a", 1, "drop me")]);
    s.append_pending_agent_drops("agent-drop", &["a#0".to_string()], 1)
        .unwrap();
    let r = run(&mut s, &request, &spine());
    assert_eq!(tail_bytes(&r, "a"), "[dropped]");
    assert!(s
        .load("agent-drop")
        .core
        .frozen_units
        .iter()
        .any(|unit| unit.key == "red:a#0"));
    assert!(s.load_pending_agent_drops("agent-drop").is_empty());
    let again = run(&mut s, &request, &spine());
    assert_eq!(again.action, "SOFT+");
    assert_eq!(tail_bytes(&again, "a"), "[dropped]");
    s.append_pending_agent_drops("agent-drop", &["a#0".to_string()], 2)
        .unwrap();
    let mut hard_request = request.clone();
    hard_request.render_config = "cfg1".to_string();
    let hard = run(&mut s, &hard_request, &spine());
    assert_eq!(hard.action, "HARD");
    assert_eq!(tail_bytes(&hard, "a"), "[dropped]");
    assert!(s.load_pending_agent_drops("agent-drop").is_empty());
}

#[test]
fn producer_gate_runs_on_execute_force_and_hard_advisory_never_plain_defer() {
    let ctx = smart_pctx();
    let mut s = McStore::new();
    bootstrap_covering_a(&mut s);
    let mut messages = vec![item("a", 1, "raw")];
    messages.extend(todowrite_arc("old", 2));
    messages.extend(todowrite_arc("new", 4));
    let defer = transform(&mut s,
        &with_usage(req("ses", "cfg0", messages.clone()), 10, 100),
        &ctx,
    )
    .unwrap();
    assert_eq!(defer.action, "SOFT+");
    assert!(s
        .load("ses")
        .core
        .frozen_units
        .iter()
        .all(|unit| !unit.key.starts_with("red:old")));

    let execute = transform(&mut s,
        &with_usage(req("ses", "cfg0", messages.clone()), 70, 100),
        &ctx,
    )
    .unwrap();
    assert_eq!(execute.action, "SOFT");
    assert!(s
        .load("ses")
        .core
        .frozen_units
        .iter()
        .any(|unit| unit.key == "red:old#0"));
    let mut s = McStore::new();
    bootstrap_covering_a(&mut s);
    let huge = "x".repeat(50_000);
    let force_messages = vec![
        item("a", 1, "raw"),
        assistant_tool_call("force_old", 2, "force_old_call"),
        tool_result("force_old_result", 3, "force_old_call", &huge),
        assistant_tool_call("force_new", 4, "force_new_call"),
        tool_result("force_new_result", 5, "force_new_call", &huge),
    ];
    let force = transform(&mut s,
        &with_usage(req("ses", "cfg0", force_messages), 90_000, 100_000),
        &ctx,
    )
    .unwrap();
    assert_eq!(force.action, "SOFT");
    assert!(s
        .load("ses")
        .core
        .frozen_units
        .iter()
        .any(|unit| unit.key == "red:force_old#0"));
    let mut s = McStore::new();
    bootstrap_covering_a(&mut s);
    let mut hard_messages = vec![item("a", 1, "raw")];
    hard_messages.extend(todowrite_arc("hard_old", 2));
    hard_messages.extend(todowrite_arc("hard_new", 4));
    let hard = transform(&mut s,
        &with_usage(req("ses", "cfg1", hard_messages), 10, 100),
        &ctx,
    )
    .unwrap();
    assert_eq!(hard.action, "HARD");
    assert!(s
        .load("ses")
        .core
        .frozen_units
        .iter()
        .any(|unit| unit.key == "red:hard_old#0"));
}

#[test]
fn coverage_filtered_pool_never_selects_covered_blocks() {
    let mut s = McStore::new();
    let ctx = smart_pctx();
    let mut messages = todowrite_arc("a", 1);
    s.replace_compartments("ses", &[comp(1, 1, 2, "a_result", "SUMMARY")])
        .unwrap();
    let boot = transform(&mut s, &req("ses", "cfg0", messages.clone()), &ctx).unwrap();
    assert_eq!(boot.action, "HARD");
    messages.extend(todowrite_arc("tail_old", 3));
    messages.extend(todowrite_arc("tail_new", 5));
    let response =
        transform(&mut s, &with_usage(req("ses", "cfg0", messages), 70, 100), &ctx).unwrap();
    assert_eq!(response.action, "SOFT");
    let loaded = s.load("ses");
    assert!(loaded
        .core
        .frozen_units
        .iter()
        .all(|unit| unit.key != "red:a#0"));
    assert!(loaded
        .core
        .frozen_units
        .iter()
        .any(|unit| unit.key == "red:tail_old#0"));
}

#[test]
fn provider_executed_open_arc_does_not_defer_execute_selection() {
    let mut s = McStore::new();
    bootstrap_covering_a(&mut s);
    let mut ctx = smart_pctx();
    ctx.observed_last_response_at_ms = Some(1);
    let mut messages = vec![item("a", 1, "raw")];
    messages.extend(todowrite_arc("old", 2));
    messages.extend(todowrite_arc("new", 4));
    messages.push(CkIngressMessage {
        mid: "server_tool".to_string(),
        ordinal: 6,
        ck: CkWireMessage::from_parts(
            "assistant",
            vec![CkWireBlock::bare(CkKind::ToolCall {
                id: "server_call".to_string(),
                name: "web_search".to_string(),
                input: "{}".to_string(),
                provider_executed: true,
            })],
            None,
            ProviderExtras::new(),
            HarnessMeta {
                harness_id: Some("server_tool".to_string()),
                ..Default::default()
            },
        ),
    });
    let response =
        transform(&mut s, &with_usage(req("ses", "cfg0", messages), 70, 100), &ctx).unwrap();
    assert_eq!(response.action, "SOFT");
    assert!(s
        .load("ses")
        .core
        .frozen_units
        .iter()
        .any(|unit| unit.key == "red:old#0"));
}

#[test]
fn ttl_hard_requires_in_process_observation_not_durable_anchor_alone() {
    let mut s = McStore::new();
    bootstrap_covering_a(&mut s);
    let mut loaded = s.load("ses");
    loaded.meta.last_committed_pass_at_ms = 1;
    s.commit("ses", loaded.row_version, &loaded.core, &loaded.meta)
        .unwrap();

    let mut ctx = pctx("git:proj", 10 * 60 * 1000);
    ctx.cache_ttl_ms = 5 * 60 * 1000;
    ctx.observed_last_response_at_ms = None;
    let no_observation =
        transform(&mut s, &req("ses", "cfg0", vec![item("a", 1, "raw")]), &ctx).unwrap();
    assert_eq!(no_observation.action, "SOFT+");
    assert!(!no_observation.committed);

    ctx.observed_last_response_at_ms = Some(1);
    let observed = transform(&mut s, &req("ses", "cfg0", vec![item("a", 1, "raw")]), &ctx).unwrap();
    assert_eq!(observed.action, "HARD");
}

#[test]
fn reconcile_pending_disables_two_pass_selector() {
    let mut s = McStore::new();
    bootstrap_covering_a(&mut s);
    let loaded = s.load("ses");
    let mut core = loaded.core.clone();
    let mut meta = loaded.meta.clone();
    core.boundary_id = "missing#0".to_string();
    core.reconcile_pending = true;
    meta.last_execute_ordinal = 99;
    s.commit("ses", loaded.row_version, &core, &meta).unwrap();

    let messages = vec![
        item("a", 1, "raw"),
        assistant_tool_call("old", 2, "old_call"),
        tool_result("old_result", 3, "old_call", "old output"),
    ];
    let response = transform(&mut s,
        &with_usage(req("ses", "cfg0", messages), 70, 100),
        &pctx("git:proj", 0),
    )
    .unwrap();
    assert_eq!(response.action, "HARD");
    assert!(s
        .load("ses")
        .core
        .frozen_units
        .iter()
        .all(|unit| unit.key != "red:old#0"));
}

#[test]
fn execute_with_zero_delta_is_defer_shaped_and_byte_identical() {
    let mut s = McStore::new();
    s.replace_compartments("ses", &[comp(1, 1, 1, "a", "SUMMARY")])
        .unwrap();
    let boot_req = with_usage(req("ses", "cfg0", vec![item("a", 1, "raw")]), 90, 100);
    let boot = run(&mut s, &boot_req, &spine());
    assert_eq!(boot.action, "HARD");
    let before = boot.ck_messages.clone();
    let mut ctx = pctx("git:proj", 0);
    ctx.observed_last_response_at_ms = Some(0);
    let execute = transform(&mut s, &boot_req, &ctx).unwrap();
    assert_eq!(execute.action, "SOFT+");
    assert_eq!(execute.ck_messages.clone(), before);
    let meta = s.load("ses").meta;
    assert_eq!(
        meta.last_execute_ordinal, 1,
        "zero-drop execute still advances the two-pass watermark"
    );
    let again = transform(&mut s, &boot_req, &ctx).unwrap();
    assert!(!again.committed);
    assert_eq!(again.ck_messages.clone(), before);
}

#[test]
fn zero_drop_execute_watermark_ages_arcs_into_next_execute() {
    let mut s = McStore::new();
    s.replace_compartments("ses", &[comp(1, 1, 1, "a", "SUMMARY")])
        .unwrap();
    let msgs = vec![
        item("a", 1, "covered head"),
        assistant_tool_call("m1", 2, "call_age"),
        tool_result("m2", 3, "call_age", "big tool output payload"),
        item("m9", 9, "newest user text"),
    ];
    let boot = run(&mut s, &req("ses", "cfg0", msgs.clone()), &spine());
    assert_eq!(boot.action, "HARD");
    let exec_req = with_usage(req("ses", "cfg0", msgs.clone()), 70, 100);
    let mut ctx = pctx("git:proj", 0);
    ctx.observed_last_response_at_ms = Some(0);
    let _ = transform(&mut s, &exec_req, &ctx).unwrap();
    let after_first = s.load("ses");
    assert!(
        after_first
            .core
            .frozen_units
            .iter()
            .all(|unit| !unit.key.starts_with("red:m1#") && !unit.key.starts_with("red:m2#")),
        "first execute has no candidates old enough to drop"
    );
    assert!(
        after_first.meta.last_execute_ordinal >= 9,
        "watermark stamped from the execute tail"
    );
    let _ = transform(&mut s, &exec_req, &ctx).unwrap();
    let after_second = s.load("ses");
    assert!(
        after_second
            .core
            .frozen_units
            .iter()
            .any(|unit| unit.key.starts_with("red:m1#") || unit.key.starts_with("red:m2#")),
        "completed arc aged in by the prior execute's watermark must freeze a drop"
    );
}

#[test]
fn v2_defer_replays_ck_messages_byte_identically_and_echoes_fingerprint() {
    let mut s = McStore::new();
    let mut request = req("v2-defer", "cfg0", vec![item("a", 1, "raw")]);
    request.full_array_fingerprint = Some("fp-v2-defer".to_string());

    let first = run(&mut s, &request, &spine());
    let second = run(&mut s, &request, &spine());

    assert_eq!(first.status, TransformStatus::Served);
    assert_eq!(first.served_from, ServedFrom::Transform);
    assert_eq!(first.full_array_fingerprint.as_deref(), Some("fp-v2-defer"));
    assert_eq!(second.action, "SOFT+");
    assert_eq!(
        second.full_array_fingerprint.as_deref(),
        Some("fp-v2-defer")
    );
    assert_eq!(
        first.ck_messages.clone(),
        second.ck_messages.clone(),
        "defer replay must keep the CK array byte-identical"
    );
}

#[test]
fn bootstrap_with_no_compartments_is_empty_baseline_whole_array_is_tail() {
    let mut s = McStore::new();
    let r = run(&mut s,
        &req("ses", "cfg0", vec![item("a", 1, "<h>BASE</h>")]),
        &spine(),
    );
    assert_eq!(r.action, "HARD", "first pass materializes a baseline");
    assert_eq!(r.boundary_id, "", "no compartment → no coverage anchor");
    assert!(
        m0_bytes(&r).contains("<session-history></session-history>"),
        "{}",
        m0_bytes(&r)
    );
    assert_eq!(m1_bytes(&r), M1_PLACEHOLDER);
    assert_eq!(tail_ids(&r), vec!["a"], "uncovered live item is the tail");
    assert!(r.committed);
}

#[test]
fn empty_store_bootstrap_then_defers_stably_without_hard_oscillation() {
    let mut s = McStore::new();
    let items = vec![item("a", 1, "<h>HELLO</h>"), item("b", 2, "world")];
    let first = run(&mut s, &req("ses", "cfg0", items.clone()), &spine());
    assert_eq!(first.action, "HARD", "first pass is the bootstrap HARD");
    let m0 = m0_bytes(&first).to_string();
    let m1 = m1_bytes(&first).to_string();

    for _ in 0..4 {
        let r = run(&mut s, &req("ses", "cfg0", items.clone()), &spine());
        assert_eq!(
            r.action, "SOFT+",
            "an unseeded-store defer must not oscillate back into a HARD"
        );
        assert_eq!(
            m0_bytes(&r),
            m0,
            "m0 must stay byte-identical across defers"
        );
        assert_eq!(
            m1_bytes(&r),
            m1,
            "m1 must stay byte-identical across defers"
        );
        assert_eq!(tail_ids(&r), vec!["a", "b"]);
    }
}

#[test]
fn first_compartment_published_after_empty_bootstrap_hard_folds_and_mints_boundary() {
    let mut s = McStore::new();

    let live1 = vec![item("a", 1, "<h>first</h>"), item("t2", 2, "turn two")];
    let boot = run(&mut s, &req("ses", "cfg0", live1.clone()), &spine());
    assert_eq!(boot.action, "HARD", "bootstrap HARD");
    assert_eq!(boot.boundary_id, "", "boundary never minted yet");
    assert_eq!(tail_ids(&boot), vec!["a", "t2"]);

    let pre = run(&mut s, &req("ses", "cfg0", live1.clone()), &spine());
    assert_eq!(pre.action, "SOFT+", "no compartment yet → pure defer");

    s.replace_compartments("ses", &[comp(0, 1, 1, "a", "S0-FIRST")])
        .unwrap();
    let fold = run(&mut s, &req("ses", "cfg0", live1.clone()), &spine());
    assert_eq!(
        fold.action, "HARD",
        "first compartment after an empty bootstrap must HARD-fold, not strand on defer"
    );
    assert_eq!(
        fold.boundary_id, "a#0",
        "the fold MINTED the first boundary"
    );
    assert!(
        m0_bytes(&fold).contains("S0-FIRST"),
        "m0 now carries the folded summary: {}",
        m0_bytes(&fold)
    );
    assert_eq!(
        tail_ids(&fold),
        vec!["t2"],
        "covered ordinal 1 trimmed from tail"
    );

    let defer = run(&mut s, &req("ses", "cfg0", live1), &spine());
    assert_eq!(
        defer.action, "SOFT+",
        "post-fold the boundary is present → defer, never a repeated first-fold HARD"
    );
    assert!(!defer.committed, "a settled defer does not write");

    s.replace_compartments(
        "ses",
        &[
            comp(0, 1, 1, "a", "S0-FIRST"),
            comp(1, 2, 2, "t2", "S1-SECOND"),
        ],
    )
    .unwrap();
    let second = run(&mut s,
        &req(
            "ses",
            "cfg0",
            vec![
                item("a", 1, "<h>first</h>"),
                item("t2", 2, "turn two"),
                item("t3", 3, "turn three"),
            ],
        ),
        &spine(),
    );
    assert_eq!(
        second.action, "SOFT",
        "a subsequent publish rides m1 SOFT — the first-fold HARD fires exactly once"
    );
    assert_eq!(second.boundary_id, "t2#0", "the SOFT advanced the anchor");
    assert!(
        m1_bytes(&second).contains("S1-SECOND"),
        "{}",
        m1_bytes(&second)
    );
}

#[test]
fn fold_minting_wrong_vocabulary_anchor_fails_loud_instead_of_looping() {
    let mut s = McStore::new();
    s.replace_compartments(
        "ses",
        &[StoredCompartment {
            sequence: 0,
            start_message: 1,
            end_message: 1,
            end_message_id: "m1".to_string(), // bare mid — wrong vocabulary
            title: "C0".to_string(),
            content: "S".to_string(),
            p1: Some("S".to_string()),
            importance: 50,
            ..Default::default()
        }],
    )
    .unwrap();
    let live = vec![item("m1", 1, "raw"), item("t2", 2, "tail")];
    let ctx = pctx("git:proj", 0);
    let err = transform(&mut s, &req("ses", "cfg0", live.clone()), &ctx);
    match err {
        Err(TransformError::BoundaryNotPresent(_)) => {}
        other => panic!("expected BoundaryNotPresent, got {other:?}"),
    }
    let retry = transform(&mut s, &req("ses", "cfg0", live), &ctx);
    assert!(matches!(retry, Err(TransformError::BoundaryNotPresent(_))));
}

#[test]
fn fold_minting_empty_anchor_with_coverage_fails_loud() {
    let mut s = McStore::new();
    s.replace_compartments(
        "ses",
        &[StoredCompartment {
            sequence: 0,
            start_message: 1,
            end_message: 1,
            end_message_id: String::new(), // empty — never presentable
            title: "C0".to_string(),
            content: "S".to_string(),
            p1: Some("S".to_string()),
            importance: 50,
            ..Default::default()
        }],
    )
    .unwrap();
    let live = vec![item("m1", 1, "raw")];
    let ctx = pctx("git:proj", 0);
    let err = transform(&mut s, &req("ses", "cfg0", live), &ctx);
    assert!(matches!(err, Err(TransformError::BoundaryNotPresent(_))));
}

#[test]
fn coverage_extending_soft_minting_absent_anchor_fails_loud() {
    let mut s = McStore::new();
    s.replace_compartments("ses", &[comp(0, 1, 1, "a", "S0")])
        .unwrap();
    let live = vec![item("a", 1, "raw"), item("t2", 2, "turn two")];
    let boot = run(&mut s, &req("ses", "cfg0", live.clone()), &spine());
    assert_eq!(boot.action, "HARD");
    assert_eq!(boot.boundary_id, "a#0");

    s.replace_compartments(
        "ses",
        &[
            comp(0, 1, 1, "a", "S0"),
            StoredCompartment {
                sequence: 1,
                start_message: 2,
                end_message: 2,
                end_message_id: "t2".to_string(), // bare mid — wrong vocabulary
                title: "C1".to_string(),
                content: "S1".to_string(),
                p1: Some("S1".to_string()),
                importance: 50,
                ..Default::default()
            },
        ],
    )
    .unwrap();
    let ctx = pctx("git:proj", 0);
    let err = transform(&mut s, &req("ses", "cfg0", live), &ctx);
    assert!(matches!(err, Err(TransformError::BoundaryNotPresent(_))));
}

#[test]
fn reconcile_rematerialize_after_revert_is_not_blocked_by_the_mint_guard() {
    let mut s = McStore::new();
    s.replace_compartments(
        "ses",
        &[comp(0, 1, 1, "a", "S0"), comp(1, 2, 2, "t2", "S1")],
    )
    .unwrap();
    let live_full = vec![
        item("a", 1, "raw"),
        item("t2", 2, "turn two"),
        item("t3", 3, "tail"),
    ];
    let boot = run(&mut s, &req("ses", "cfg0", live_full), &spine());
    assert_eq!(boot.action, "HARD");
    assert_eq!(boot.boundary_id, "t2#0");

    let live_reverted = vec![item("a", 1, "raw"), item("t4", 2, "new turn")];
    let revert = run(&mut s, &req("ses", "cfg0", live_reverted.clone()), &spine());
    assert_eq!(revert.action, "SOFT+", "revert never busts on sight");
    assert!(revert.reconcile_pending);

    s.replace_compartments("ses", &[comp(0, 1, 1, "a", "S0")])
        .unwrap();
    let remat = run(&mut s, &req("ses", "cfg0", live_reverted), &spine());
    assert_eq!(
        remat.action, "HARD",
        "reconcile rematerializes without tripping the mint guard"
    );
    assert_eq!(remat.boundary_id, "a#0", "re-minted from the re-cut store");
    assert!(!remat.reconcile_pending);
    assert_eq!(tail_ids(&remat), vec!["t4"]);
}

#[test]
fn reconcile_rematerialize_with_unrecut_store_truncates_and_refolds_prefix() {
    let mut s = McStore::new();
    s.replace_compartments(
        "ses",
        &[comp(1, 1, 1, "a", "S0"), comp(2, 2, 2, "t2", "S1")],
    )
    .unwrap();
    let live_full = vec![
        item("a", 1, "raw"),
        item("t2", 2, "turn two"),
        item("t3", 3, "tail"),
    ];
    let boot = run(&mut s, &req("ses", "cfg0", live_full), &spine());
    assert_eq!(boot.action, "HARD");
    assert_eq!(boot.boundary_id, "t2#0");

    let live_reverted = vec![item("a", 1, "raw"), item("t4", 2, "new turn")];
    let revert = run(&mut s, &req("ses", "cfg0", live_reverted.clone()), &spine());
    assert_eq!(revert.action, "SOFT+", "revert never busts on sight");
    assert!(revert.reconcile_pending);
    let loaded = s.load("ses");
    let mut meta = loaded.meta.clone();
    meta.last_execute_ordinal = 99;
    s.commit("ses", loaded.row_version, &loaded.core, &meta)
        .unwrap();
    let before_recut = s.load("ses").row_version.unwrap();

    let remat = run(&mut s, &req("ses", "cfg0", live_reverted.clone()), &spine());
    assert_eq!(remat.action, "HARD");
    assert_eq!(
        remat.boundary_id, "a#0",
        "the surviving prefix is re-minted"
    );
    assert_eq!(remat.coverage_ordinal, Some(1));
    assert!(!remat.reconcile_pending);
    assert_eq!(tail_ids(&remat), vec!["t4"]);
    let loaded = s.load("ses");
    assert_eq!(loaded.meta.revert_epoch, 1);
    assert!(loaded
        .meta
        .last_recut
        .as_deref()
        .unwrap()
        .contains("dropped seq 2"));
    assert_eq!(loaded.meta.folded_compartment_seq, 1);
    assert_eq!(loaded.meta.last_execute_ordinal, 1);
    assert_eq!(loaded.row_version.unwrap(), before_recut + 2);
    assert_eq!(s.load_compartments("ses").len(), 1);

    s.append_compartments("ses", &[comp(3, 2, 2, "t4", "S2")])
        .unwrap();
    let folded_again = run(&mut s, &req("ses", "cfg0", live_reverted), &spine());
    assert_eq!(folded_again.action, "SOFT");
    assert_eq!(folded_again.boundary_id, "t4#0");
    assert_eq!(folded_again.coverage_ordinal, Some(2));
    assert_eq!(tail_ids(&folded_again), Vec::<&str>::new());
}

/// A session whose boundary was taken back, with the history still uncut.
fn reverted_session() -> (McStore, Vec<CkIngressMessage>) {
    let mut s = McStore::new();
    s.replace_compartments(
        "ses",
        &[
            comp(1, 1, 1, "a", "S0"),
            comp(2, 2, 2, "t2", "S1"),
            comp(3, 3, 3, "t3", "S2"),
        ],
    )
    .unwrap();
    s.replace_compartments("other", &[comp(7, 1, 1, "o", "OTHER")])
        .unwrap();
    let live_full = vec![
        item("a", 1, "raw"),
        item("t2", 2, "turn two"),
        item("t3", 3, "turn three"),
        item("t4", 4, "tail"),
    ];
    let boot = run(&mut s, &req("ses", "cfg0", live_full), &spine());
    assert_eq!(boot.boundary_id, "t3#0");
    let live_reverted = vec![item("a", 1, "raw"), item("t2", 2, "turn two"), item("t9", 3, "new")];
    let revert = run(&mut s, &req("ses", "cfg0", live_reverted.clone()), &spine());
    assert!(revert.reconcile_pending);
    (s, live_reverted)
}

/// Drives a pass up to the stage that asks for the history behind a cut.
fn up_to_the_cut(s: &mut McStore, request: &TransformRequest, ctx: &Ctx) -> TransformPass {
    let session = request.session_id.as_str();
    let pass = transform_with_projection(
        request.clone(),
        ctx.project_path.clone(),
        M1_PLACEHOLDER.to_string(),
        ctx.now_ms,
    );
    let pass = pass.projected(s, project_messages(&request.messages));
    let signals = match &pass.stage {
        PassStage::Signal(begun) => PassSignals {
            render_config: fold_epoch(
                &request.render_config,
                &begun.value.start.workspace_fingerprint,
            ),
            m1_digest: m1_revision_signal(s, &ctx.project_path, &s.load_compartments(session)),
            outcome: schedule(ctx, &begun.value),
        },
        other => panic!("{other:?}"),
    };
    let pass = pass.signalled(signals);
    let selection = match &pass.stage {
        PassStage::Select(gated) => Some(select_reductions(ctx, &gated.value)),
        _ => None,
    };
    let pass = match selection {
        Some(reductions) => pass.selected(reductions),
        None => pass,
    };
    let plan = match &pass.stage {
        PassStage::Plan(chosen) => classify(&chosen.value.input),
        other => panic!("{other:?}"),
    };
    assert_eq!(plan, PassPlan::Hard);
    let pass = pass.planned(plan, None);
    let comp = compose_m0(s, ctx, &s.load_compartments(session));
    pass.composed(s, comp)
}

#[test]
fn a_pass_that_fails_behind_a_cut_leaves_the_store_alone() {
    let (mut s, live) = reverted_session();
    let request = req("ses", "cfg0", live);
    let ctx = pctx("git:proj", 0);
    let before = format!("{s:?}");
    let version = s.load("ses").row_version;

    let pass = up_to_the_cut(&mut s, &request, &ctx);
    match &pass.stage {
        PassStage::Recompose(at) => {
            assert_eq!(at.value.keep, 2);
            let kept: Vec<i64> = at.value.history.iter().map(|c| c.sequence).collect();
            assert_eq!(kept, vec![1, 2], "the composer is handed what the cut leaves");
        }
        other => panic!("{other:?}"),
    }
    assert_eq!(format!("{s:?}"), before, "the cut waits");

    let failed = pass.recomposed(Err(TransformError::CoverageGap("gap".to_string())), 0);
    assert_eq!(
        failed.stage,
        PassStage::Failed(TransformError::CoverageGap("gap".to_string()))
    );
    assert_eq!(format!("{s:?}"), before);
    assert_eq!(s.load("ses").row_version, version);
    assert_eq!(s.load_compartments("ses").len(), 3);

    let absent = up_to_the_cut(&mut s, &request, &ctx);
    let comp = compose_m0(&s, &ctx, &s.load_compartments("ses"));
    let failed = absent.recomposed(comp, 0);
    assert!(matches!(failed.stage, PassStage::Failed(_)), "{:?}", failed.stage);
    assert_eq!(format!("{s:?}"), before, "a boundary that is still absent writes nothing");

    let served = transform(&mut s, &request, &ctx).unwrap();
    assert_eq!(served.action, "HARD");
    assert_eq!(served.boundary_id, "t2#0");
    assert_eq!(served.row_version, version.unwrap() + 2);
    assert_eq!(s.load("ses").row_version, Some(version.unwrap() + 2));
    assert_eq!(s.load_compartments("ses").len(), 2);
    assert_eq!(s.load_compartments("other").len(), 1);
    assert_eq!(s.load("ses").meta.revert_epoch, 1);

    let behind = format!("{s:?}");
    ctx.histories.set(0);
    let again = transform(&mut s, &request, &ctx).unwrap();
    assert_eq!((again.action.as_str(), again.committed), ("SOFT+", false));
    assert_eq!(again.row_version, served.row_version);
    assert_eq!(again.ck_messages, served.ck_messages);
    assert_eq!(ctx.histories.get(), 0, "the same call once more renders nothing");
    assert_eq!(format!("{s:?}"), behind);
}

#[test]
fn a_cut_that_another_writer_overtook_starts_over() {
    let (mut s, live) = reverted_session();
    let request = req("ses", "cfg0", live);
    let ctx = pctx("git:proj", 0);
    let pass = up_to_the_cut(&mut s, &request, &ctx);
    let comp = match &pass.stage {
        PassStage::Recompose(at) => compose_m0(&s, &ctx, &at.value.history),
        other => panic!("{other:?}"),
    };
    let pass = pass.recomposed(comp, 0);
    let core = match &pass.stage {
        PassStage::FreezeHistory(at) => step(&at.value.on.work.core, &at.value.input),
        other => panic!("{other:?}"),
    };
    let pass = pass.stepped(core, None).injected(InjectionOutcome::Nothing);
    assert!(matches!(pass.stage, PassStage::Render(_)));

    let loaded = s.load("ses");
    s.commit("ses", loaded.row_version, &loaded.core, &loaded.meta)
        .unwrap();
    let before = format!("{s:?}");
    let pass = pass.rendered(&mut s, vec![], false);
    assert_eq!(pass.stage, PassStage::Project, "the pass starts over");
    assert_eq!(pass.job.attempt, 1);
    assert_eq!(format!("{s:?}"), before, "neither the cut nor the commit was written");
}

#[test]
fn reconcile_recut_nothing_survives_bootstraps_without_first_fold_loop() {
    let mut s = McStore::new();
    s.replace_compartments("ses", &[comp(1, 1, 2, "t2", "S0")])
        .unwrap();
    let live_full = vec![item("t2", 2, "turn two"), item("t3", 3, "tail")];
    let boot = run(&mut s, &req("ses", "cfg0", live_full), &spine());
    assert_eq!(boot.action, "HARD");
    assert_eq!(boot.boundary_id, "t2#0");

    let live_reverted = vec![item("t9", 9, "post-revert")];
    let revert = run(&mut s, &req("ses", "cfg0", live_reverted.clone()), &spine());
    assert_eq!(revert.action, "SOFT+");
    assert!(revert.reconcile_pending);

    let remat = run(&mut s, &req("ses", "cfg0", live_reverted.clone()), &spine());
    assert_eq!(remat.action, "HARD");
    assert_eq!(remat.boundary_id, "");
    assert_eq!(remat.coverage_ordinal, None);
    assert!(!remat.reconcile_pending);
    assert_eq!(tail_ids(&remat), vec!["t9"]);
    assert!(s.load_compartments("ses").is_empty());
    assert_eq!(s.load("ses").meta.revert_epoch, 1);

    let defer = run(&mut s, &req("ses", "cfg0", live_reverted), &spine());
    assert_eq!(defer.action, "SOFT+");
    assert!(
        !defer.committed,
        "an empty re-cut must not leave a first-fold trigger"
    );
}

#[test]
fn first_fold_error_leaves_state_unchanged_and_the_hard_retries_visibly() {
    let mut s = McStore::new();
    s.replace_compartments("ses", &[comp(0, 5, 5, "m5", "S")])
        .unwrap();
    let live = vec![
        item("early", 1, "before coverage"),
        item("m5", 5, "covered"),
    ];

    let ctx = pctx("git:proj", 0);
    let first = transform(&mut s, &req("ses", "cfg0", live.clone()), &ctx);
    assert!(
        first.is_err(),
        "first-fold HARD hits the leading-gap fail-loud path"
    );
    let retry = transform(&mut s, &req("ses", "cfg0", live), &ctx);
    assert!(
        retry.is_err(),
        "state unchanged after the failed fold → the HARD retries and stays visible"
    );
}

#[test]
fn bootstrap_with_a_compartment_summarizes_it_and_trims_the_covered_tail() {
    let mut s = McStore::new();
    s.replace_compartments("ses", &[comp(1, 1, 10, "m10", "SUMMARY-OF-1-10")])
        .unwrap();
    let items = vec![item("m10", 10, "raw covered"), item("t11", 11, "tail")];
    let r = run(&mut s, &req("ses", "cfg0", items), &spine());
    assert_eq!(r.action, "HARD");
    assert_eq!(
        r.boundary_id, "m10#0",
        "anchor = the compartment's end message id"
    );
    assert!(
        m0_bytes(&r).contains("SUMMARY-OF-1-10"),
        "m0 is the summary: {}",
        m0_bytes(&r)
    );
    assert!(
        !m0_bytes(&r).contains("raw covered"),
        "m0 is NOT the raw bytes"
    );
    assert_eq!(
        tail_ids(&r),
        vec!["t11"],
        "covered raw msg trimmed, tail kept"
    );
}

#[test]
fn leading_coverage_gap_fails_loud_not_silent_drop() {
    let mut s = McStore::new();
    s.replace_compartments("ses", &[comp(1, 10, 20, "m20", "S")])
        .unwrap();
    let items = vec![
        item("early", 1, "live before the first compartment"),
        item("m20", 20, "covered"),
        item("t21", 21, "tail"),
    ];
    let err = transform(&mut s,
        &req("ses", "cfg0", items),
        &pctx("git:proj", 0),
    )
    .unwrap_err();
    assert!(
        matches!(err, TransformError::CoverageGap(_)),
        "a leading gap must fail loud, not silently drop the early live item: {err:?}"
    );
}

#[test]
fn leading_coverage_gap_exempts_pinned_system_message() {
    let mut s = McStore::new();
    s.replace_compartments("ses", &[comp(1, 1, 2, "m2", "S")])
        .unwrap();
    let items = vec![
        system_item("sys0", 0, "identity lead"),
        item("m2", 2, "covered"),
        item("t3", 3, "tail"),
    ];
    let out = transform(&mut s,
        &req("ses", "cfg0", items),
        &pctx("git:proj", 0),
    )
    .unwrap();
    assert_eq!(out.coverage_ordinal, Some(2));
}

#[test]
fn growing_tail_defers_byte_stable_and_no_write() {
    let mut s = McStore::new();
    s.replace_compartments("ses", &[comp(1, 1, 1, "m1msg", "SUMMARY")])
        .unwrap();
    run(&mut s,
        &req("ses", "cfg0", vec![item("m1msg", 1, "raw")]),
        &spine(),
    );

    let mut prev_m0: Option<String> = None;
    let mut prev_m1: Option<String> = None;
    for n in 2..=5u64 {
        let mut items = vec![item("m1msg", 1, "raw")];
        for k in 2..=n {
            items.push(item(&format!("t{k}"), k, &format!("tail{k}")));
        }
        let r = run(&mut s, &req("ses", "cfg0", items), &spine());
        assert_eq!(r.action, "SOFT+", "no delta → pure defer");
        assert!(
            r.committed,
            "first-seen tail mids persist identity vectors even on a defer"
        );
        if let Some(p) = &prev_m0 {
            assert_eq!(m0_bytes(&r), p, "m0 changed on defer");
        }
        if let Some(p) = &prev_m1 {
            assert_eq!(m1_bytes(&r), p, "m1 changed on defer");
        }
        let expected: Vec<String> = (2..=n).map(|k| format!("t{k}")).collect();
        assert_eq!(
            tail_ids(&r),
            expected.iter().map(|s| s.as_str()).collect::<Vec<_>>()
        );
        prev_m0 = Some(m0_bytes(&r).to_string());
        prev_m1 = Some(m1_bytes(&r).to_string());
    }
}

#[test]
fn new_memory_rides_m1_soft_and_m0_stays_frozen() {
    let mut s = McStore::new();
    s.replace_compartments("ses", &[comp(1, 1, 1, "m1msg", "SUMMARY")])
        .unwrap();
    let before = run(&mut s,
        &req("ses", "cfg0", vec![item("m1msg", 1, "raw")]),
        &spine(),
    );
    assert_eq!(before.action, "HARD");

    s.seed_memory(5, "git:proj", "ARCHITECTURE", "a durable rule", 70)
        .unwrap();
    let soft = run(&mut s,
        &req("ses", "cfg0", vec![item("m1msg", 1, "raw")]),
        &spine(),
    );
    assert_eq!(soft.action, "SOFT", "a new store memory rides a SOFT");
    assert_eq!(
        m0_bytes(&soft),
        m0_bytes(&before),
        "m0 frozen across the SOFT"
    );
    assert!(
        m1_bytes(&soft).contains("<new-memories>"),
        "{}",
        m1_bytes(&soft)
    );
    assert!(m1_bytes(&soft).contains("a durable rule"));
    assert!(soft.committed);

    let after = run(&mut s,
        &req("ses", "cfg0", vec![item("m1msg", 1, "raw")]),
        &spine(),
    );
    assert_eq!(after.action, "SOFT+");
    assert!(!after.committed);
    assert_eq!(
        m1_bytes(&after),
        m1_bytes(&soft),
        "m1 replays byte-identical"
    );
    assert_eq!(m0_bytes(&after), m0_bytes(&before));
}

#[test]
fn in_m0_memory_update_rides_m1_as_a_supersede_delta() {
    let mut s = McStore::new();
    s.seed_memory(5, "git:proj", "ARCHITECTURE", "original", 70)
        .unwrap();
    s.replace_compartments("ses", &[comp(1, 1, 1, "m1msg", "SUMMARY")])
        .unwrap();
    let before = run(&mut s,
        &req("ses", "cfg0", vec![item("m1msg", 1, "raw")]),
        &spine(),
    );
    assert!(
        m0_bytes(&before).contains("original"),
        "memory in m0 baseline"
    );

    s.seed_mutation("git:proj", "update", 5, "corrected")
        .unwrap();
    let r = run(&mut s,
        &req("ses", "cfg0", vec![item("m1msg", 1, "raw")]),
        &spine(),
    );
    assert_eq!(r.action, "SOFT", "an in-m0 memory mutation rides a SOFT");
    assert_eq!(
        m0_bytes(&r),
        m0_bytes(&before),
        "m0 frozen (the supersede rides m1)"
    );
    assert!(
        m1_bytes(&r).contains("corrected"),
        "memory-updates delta: {}",
        m1_bytes(&r)
    );
}

#[test]
fn render_config_change_hard_folds_the_m1_delta_into_m0() {
    let mut s = McStore::new();
    s.replace_compartments("ses", &[comp(1, 1, 1, "m1msg", "SUMMARY")])
        .unwrap();
    run(&mut s,
        &req("ses", "cfg0", vec![item("m1msg", 1, "raw")]),
        &spine(),
    );
    s.seed_memory(5, "git:proj", "ARCHITECTURE", "folded rule", 70)
        .unwrap();
    let soft = run(&mut s,
        &req("ses", "cfg0", vec![item("m1msg", 1, "raw")]),
        &spine(),
    );
    assert_eq!(soft.action, "SOFT");
    assert!(!m0_bytes(&soft).contains("folded rule"), "not in m0 yet");

    let r = run(&mut s,
        &req("ses", "cfg1", vec![item("m1msg", 1, "raw")]),
        &spine(),
    );
    assert_eq!(r.action, "HARD");
    assert!(
        m0_bytes(&r).contains("folded rule"),
        "m1 delta folded into m0: {}",
        m0_bytes(&r)
    );
    assert_eq!(m1_bytes(&r), M1_PLACEHOLDER, "m1 reset to placeholder");
}

#[test]
fn new_compartment_extends_coverage_on_soft_advancing_the_anchor() {
    let mut s = McStore::new();
    s.replace_compartments("ses", &[comp(1, 1, 10, "m10", "S1")])
        .unwrap();
    let boot = run(&mut s,
        &req(
            "ses",
            "cfg0",
            vec![item("m10", 10, "raw"), item("t11", 11, "tail")],
        ),
        &spine(),
    );
    assert_eq!(boot.boundary_id, "m10#0");
    assert_eq!(tail_ids(&boot), vec!["t11"]);

    s.replace_compartments(
        "ses",
        &[comp(1, 1, 10, "m10", "S1"), comp(2, 11, 20, "m20", "S2")],
    )
    .unwrap();
    let items = vec![
        item("m10", 10, "raw"),
        item("m20", 20, "raw2"),
        item("t21", 21, "tail"),
    ];
    let soft = run(&mut s, &req("ses", "cfg0", items.clone()), &spine());
    assert_eq!(soft.action, "SOFT", "a new compartment rides a SOFT");
    assert_eq!(
        soft.boundary_id, "m20#0",
        "the anchor ADVANCED on the SOFT (b0→b1)"
    );
    assert!(
        m1_bytes(&soft).contains("<new-compartments>"),
        "{}",
        m1_bytes(&soft)
    );
    assert!(m1_bytes(&soft).contains("S2") && !m1_bytes(&soft).contains("title=\"C1\""));
    assert_eq!(tail_ids(&soft), vec!["t21"]);

    let defer = run(&mut s, &req("ses", "cfg0", items), &spine());
    assert_eq!(defer.action, "SOFT+");
    assert!(!defer.committed);
    assert_eq!(
        m1_bytes(&defer),
        m1_bytes(&soft),
        "m1 replays identical at b1"
    );
    assert_eq!(m0_bytes(&defer), m0_bytes(&soft));

    let revert = run(&mut s,
        &req("ses", "cfg0", vec![item("z", 30, "other")]),
        &spine(),
    );
    assert_eq!(revert.action, "SOFT+");
    assert!(
        revert.reconcile_pending,
        "revert below b1 → reconcile pending"
    );
}

#[test]
fn coverage_extending_soft_prunes_covered_red_units() {
    let mut s = McStore::new();
    s.replace_compartments("ses", &[comp(1, 1, 10, "m10", "S1")])
        .unwrap();
    let items_v1 = vec![
        item("m10", 10, "raw"),
        item("t11", 11, "tool output"),
        item("t12", 12, "tail"),
    ];
    run(&mut s, &req("ses", "cfg0", items_v1.clone()), &spine());

    let reduced = run(&mut s,
        &req("ses", "cfg0", items_v1.clone()),
        &with_reductions(vec![reduce("t11", "drop", "[dropped]")]),
    );
    assert_eq!(reduced.action, "SOFT");
    assert_eq!(tail_bytes(&reduced, "t11"), "[dropped]");

    s.replace_compartments(
        "ses",
        &[comp(1, 1, 10, "m10", "S1"), comp(2, 11, 12, "t12", "S2")],
    )
    .unwrap();
    let items_v2 = vec![
        item("m10", 10, "raw"),
        item("t11", 11, "tool output"),
        item("t12", 12, "tail"),
        item("t13", 13, "newest"),
    ];
    let folded = run(&mut s, &req("ses", "cfg0", items_v2.clone()), &spine());
    assert_eq!(folded.action, "SOFT", "new compartment rides a SOFT");
    assert_eq!(tail_ids(&folded), vec!["t13"], "coverage trimmed t11/t12");

    let loaded = s.load("ses");
    let core = loaded.core;
    let coverage = loaded.meta.coverage_ordinal.expect("coverage advanced");
    let covered_ordinals: std::collections::BTreeMap<String, u64> = items_v2
        .iter()
        .map(|i| (target_id(&i.mid), i.ordinal))
        .collect();
    for unit in &core.frozen_units {
        let Some(target) = unit.key.strip_prefix("red:") else {
            continue;
        };
        if let Some(&ord) = covered_ordinals.get(target) {
            assert!(
                ord > coverage,
                "frozen {} survived its target's coverage (ord {ord} <= coverage {coverage})",
                unit.key
            );
        }
    }
    assert!(
        core.frozen_units.iter().all(|u| u.key != "red:t11#0"),
        "red:t11#0 must be pruned by the coverage-extending SOFT"
    );

    let defer = run(&mut s, &req("ses", "cfg0", items_v2), &spine());
    assert_eq!(defer.action, "SOFT+");
    assert_eq!(m1_bytes(&defer), m1_bytes(&folded));
    assert_eq!(m0_bytes(&defer), m0_bytes(&folded));
}

#[test]
fn frozen_expiry_cutoff_survives_a_wall_clock_advance_on_recompose() {
    let mut s = McStore::new();
    s.replace_compartments("ses", &[comp(1, 1, 1, "m1msg", "SUMMARY")])
        .unwrap();
    transform(&mut s,
        &req("ses", "cfg0", vec![item("m1msg", 1, "raw")]),
        &pctx("git:proj", 500),
    )
    .unwrap();

    s.seed_expiring_memory(5, "git:proj", "ARCHITECTURE", "still valid", 70, 1000)
        .unwrap();

    let soft = transform(&mut s,
        &req("ses", "cfg0", vec![item("m1msg", 1, "raw")]),
        &pctx("git:proj", 2000),
    )
    .unwrap();
    assert_eq!(soft.action, "SOFT");
    assert!(
        m1_bytes(&soft).contains("still valid"),
        "frozen cutoff (500) keeps the memory live at wall-clock 2000: {}",
        m1_bytes(&soft)
    );
}

#[test]
fn workspace_membership_change_is_a_render_config_hard() {
    let mut s = McStore::new();
    s.replace_compartments("ses", &[comp(1, 1, 1, "m1msg", "SUMMARY")])
        .unwrap();
    run(&mut s,
        &req("ses", "cfg0", vec![item("m1msg", 1, "raw")]),
        &spine(),
    );
    let defer = run(&mut s,
        &req("ses", "cfg0", vec![item("m1msg", 1, "raw")]),
        &spine(),
    );
    assert_eq!(defer.action, "SOFT+");

    s.seed_workspace_member("ws1", "git:proj", "[\"CONSTRAINTS\"]")
        .unwrap();
    let r = run(&mut s,
        &req("ses", "cfg0", vec![item("m1msg", 1, "raw")]),
        &spine(),
    );
    assert_eq!(r.action, "HARD", "a membership change re-materializes m0");
}

#[test]
fn revert_defers_then_reconcile_rematerializes() {
    let mut s = McStore::new();
    s.replace_compartments("ses", &[comp(1, 1, 10, "m10", "S1")])
        .unwrap();
    let before = run(&mut s,
        &req("ses", "cfg0", vec![item("m10", 10, "raw")]),
        &spine(),
    );
    assert_eq!(before.action, "HARD");
    assert_eq!(before.boundary_id, "m10#0");

    let revert = run(&mut s,
        &req("ses", "cfg0", vec![item("z", 50, "other")]),
        &spine(),
    );
    assert_eq!(revert.action, "SOFT+", "revert must not bust");
    assert!(revert.reconcile_pending);
    assert_eq!(m0_bytes(&revert), m0_bytes(&before), "frozen m0 replays");
    assert!(revert.committed, "reconcile flag flip persists");

    s.replace_compartments("ses", &[]).unwrap();
    let remat = run(&mut s,
        &req("ses", "cfg0", vec![item("a2", 60, "reverted")]),
        &spine(),
    );
    assert_eq!(remat.action, "HARD");
    assert_eq!(remat.boundary_id, "", "no compartment → empty anchor");
    assert!(!remat.reconcile_pending);
    assert_eq!(tail_ids(&remat), vec!["a2"], "live item is the tail");
}

#[test]
fn legacy_baseline_migrates_to_clean_m0_m1() {
    let mut s = McStore::new();
    let legacy_core = CoreState {
        version: 1,
        boundary_id: "a#0".into(),
        frozen_units: vec![synth_region("baseline", "OLD".into())],
        pending_changes: vec![],
        reconcile_pending: false,
    };
    let legacy_meta = ModuleMeta {
        initialized: true,
        last_render_config: "cfg0".into(),
        coverage_ordinal: Some(1),
        ..Default::default()
    };
    s.commit("ses", None, &legacy_core, &legacy_meta).unwrap();
    s.replace_compartments("ses", &[comp(1, 1, 1, "a", "FRESH-SUMMARY")])
        .unwrap();

    let r = run(&mut s, &req("ses", "cfg0", vec![item("a", 1, "NEW")]), &spine());
    assert_eq!(
        r.action, "HARD",
        "legacy shape migrates via clear-then-Hard"
    );
    assert_eq!(r.messages().iter().filter(|m| m.meta.synthetic).count(), 2);
    assert!(
        m0_bytes(&r).contains("FRESH-SUMMARY"),
        "m0 re-composed: {}",
        m0_bytes(&r)
    );
    let reloaded = s.load("ses");
    assert!(reloaded
        .core
        .frozen_units
        .iter()
        .all(|u| u.key == "m0" || u.key == "m1"));
}

#[test]
fn unknown_shape_rejects_without_clearing() {
    let mut s = McStore::new();
    let weird = CoreState {
        version: 1,
        boundary_id: "a#0".into(),
        frozen_units: vec![synth_region("junk", "??".into())],
        pending_changes: vec![],
        reconcile_pending: false,
    };
    let meta = ModuleMeta {
        initialized: true,
        last_render_config: "cfg0".into(),
        coverage_ordinal: Some(1),
        ..Default::default()
    };
    s.commit("ses", None, &weird, &meta).unwrap();
    let err = transform(&mut s,
        &req("ses", "cfg0", vec![item("a", 1, "X")]),
        &pctx("git:proj", 0),
    )
    .unwrap_err();
    assert!(matches!(err, TransformError::UnknownShape(_)));
    let reloaded = s.load("ses");
    assert_eq!(reloaded.core.frozen_units[0].key, "junk");
}

#[test]
fn reserved_id_and_ordinal_violations_error() {
    let mut s = McStore::new();
    let dc = pctx("git:proj", 0);

    let reserved = transform(&mut s, &req("ses", "cfg0", vec![item("mc_m0", 2, "x")]), &dc);
    assert!(matches!(reserved, Err(TransformError::ReservedId)));

    let bad = transform(&mut s,
        &req("ses", "cfg0", vec![item("a", 5, "x"), item("b", 5, "y")]),
        &dc,
    );
    assert!(matches!(bad, Err(TransformError::OrdinalViolation)));
}

#[test]
fn synthetic_ingress_is_stripped_before_boundary_and_tail() {
    let mut s = McStore::new();
    s.replace_compartments("ses", &[comp(1, 1, 1, "m1msg", "S")])
        .unwrap();
    run(&mut s,
        &req("ses", "cfg0", vec![item("m1msg", 1, "raw")]),
        &spine(),
    );
    let mut stale = item(M0_ID, 0, "STALE");
    stale.ck.meta.synthetic = true;
    let items = vec![stale, item("m1msg", 1, "raw"), item("t2", 2, "tail2")];
    let r = run(&mut s, &req("ses", "cfg0", items), &spine());
    assert_eq!(r.action, "SOFT+");
    assert_eq!(tail_ids(&r), vec!["t2"]);
}

#[test]
fn zero_block_tail_message_passes_through() {
    let mut s = McStore::new();
    s.replace_compartments("zero", &[comp(1, 1, 1, "a", "SUMMARY")])
        .unwrap();
    run(&mut s,
        &req("zero", "cfg0", vec![item("a", 1, "raw")]),
        &spine(),
    );

    let empty = empty_message("empty", 2);
    let r = run(&mut s,
        &req("zero", "cfg0", vec![item("a", 1, "raw"), empty.clone()]),
        &spine(),
    );

    assert_eq!(r.action, "SOFT+");
    assert_eq!(tail_ids(&r), vec!["empty"]);
    let emitted = r
        .messages()
        .iter()
        .find(|m| !m.meta.synthetic && m.meta.harness_id.as_deref() == Some("empty"))
        .expect("empty tail message emitted");
    assert_eq!(
        emitted,
        &empty.ck
    );
}

#[test]
fn synthetic_todo_compose_at_bust_freezes_position_across_defer_tail_growth() {
    let mut s = McStore::new();
    s.replace_compartments("freeze", &[comp(1, 1, 1, "a", "SUMMARY")])
        .unwrap();
    let todos = todo_list(&[("Plan", "pending", "high")]);
    let bust_items = vec![
        item("a", 1, "raw"),
        todowrite_call("todo", 2, todos.clone()),
    ];
    let bust = run(&mut s, &req("freeze", "cfg0", bust_items.clone()), &spine());

    assert_eq!(bust.action, "HARD");
    assert_eq!(
        synthetic_todo_index(&bust),
        message_index(&bust, "todo") + 1
    );
    let bust_prefix = prefix_through_synthetic_todo(&bust);

    let defer_items = vec![
        item("a", 1, "raw"),
        todowrite_call("todo", 2, todos),
        item("later1", 3, "new tail 1"),
        item("later2", 4, "new tail 2"),
    ];
    let defer = run(&mut s, &req("freeze", "cfg0", defer_items), &spine());

    assert_eq!(defer.action, "SOFT+");
    assert_eq!(
        synthetic_todo_index(&defer),
        message_index(&defer, "todo") + 1
    );
    assert!(message_index(&defer, "later1") > synthetic_todo_index(&defer) + 1);
    assert!(message_index(&defer, "later2") > synthetic_todo_index(&defer) + 1);
    assert_eq!(prefix_through_synthetic_todo(&defer), bust_prefix);
}

#[test]
fn synthetic_todo_keep_on_bust_does_not_relocate() {
    let mut s = McStore::new();
    s.replace_compartments("keep", &[comp(1, 1, 1, "a", "SUMMARY")])
        .unwrap();
    let todos = todo_list(&[("Keep", "pending", "high")]);
    let first_items = vec![
        item("a", 1, "raw"),
        todowrite_call("todo", 2, todos.clone()),
    ];
    let first = run(&mut s, &req("keep", "cfg0", first_items), &spine());
    let first_pair = synthetic_todo_pair_bytes(&first);
    let first_prefix = prefix_through_synthetic_todo(&first);

    let second_items = vec![
        item("a", 1, "raw"),
        todowrite_call("todo", 2, todos),
        item("later", 3, "tail grew"),
    ];
    let second = run(&mut s, &req("keep", "cfg1", second_items), &spine());

    assert_eq!(second.action, "HARD");
    assert_eq!(
        synthetic_todo_index(&second),
        message_index(&second, "todo") + 1
    );
    assert!(message_index(&second, "later") > synthetic_todo_index(&second) + 1);
    assert_eq!(synthetic_todo_pair_bytes(&second), first_pair);
    assert_eq!(prefix_through_synthetic_todo(&second), first_prefix);
    assert_eq!(
        s.load("keep")
            .meta
            .synthetic_todo
            .as_ref()
            .and_then(|pair| pair.anchor_mid.as_deref()),
        Some("todo")
    );
}

#[test]
fn synthetic_todo_keep_reanchors_when_coverage_advance_folds_anchor() {
    let mut s = McStore::new();
    s.replace_compartments("keep-fold", &[comp(1, 1, 1, "a", "SUMMARY-1")])
        .unwrap();
    let todos = todo_list(&[("Fold", "pending", "high")]);
    let first = run(&mut s,
        &req(
            "keep-fold",
            "cfg0",
            vec![
                item("a", 1, "raw"),
                todowrite_call("todo", 2, todos.clone()),
            ],
        ),
        &spine(),
    );
    let first_pair = synthetic_todo_pair_bytes(&first);
    let first_call_id = synthetic_todo_call_id(&first);

    s.replace_compartments(
        "keep-fold",
        &[
            comp(1, 1, 1, "a", "SUMMARY-1"),
            comp(2, 2, 2, "todo", "SUMMARY-2"),
        ],
    )
    .unwrap();
    let moved = run(&mut s,
        &req(
            "keep-fold",
            "cfg0",
            vec![
                item("a", 1, "raw"),
                todowrite_call("todo", 2, todos),
                item("t3", 3, "new tail end"),
            ],
        ),
        &spine(),
    );

    assert_eq!(moved.action, "SOFT");
    assert_eq!(synthetic_todo_call_id(&moved), first_call_id);
    assert_eq!(synthetic_todo_pair_bytes(&moved), first_pair);
    assert_eq!(
        synthetic_todo_index(&moved),
        message_index(&moved, "t3") + 1
    );
    assert_eq!(
        s.load("keep-fold")
            .meta
            .synthetic_todo
            .as_ref()
            .and_then(|pair| pair.anchor_mid.as_deref()),
        Some("t3")
    );
}

#[test]
fn crash_reentry_after_recut_uses_coverage_shrink_for_todo_reanchor() {
    let mut s = McStore::new();
    s.replace_compartments("shrink", &[comp(1, 1, 1, "a", "SUMMARY-1")])
        .unwrap();
    let todos = todo_list(&[("Shrink", "pending", "high")]);
    let first = run(&mut s,
        &req(
            "shrink",
            "cfg0",
            vec![
                item("a", 1, "raw"),
                todowrite_call("todo", 2, todos.clone()),
            ],
        ),
        &spine(),
    );
    let first_pair = synthetic_todo_pair_bytes(&first);
    let first_call_id = synthetic_todo_call_id(&first);

    let loaded = s.load("shrink");
    s.replace_compartments(
        "shrink",
        &[
            comp(1, 1, 1, "a", "SUMMARY-1"),
            comp(2, 2, 2, "todo", "SUMMARY-2"),
            comp(3, 3, 3, "gone", "SUMMARY-3"),
        ],
    )
    .unwrap();
    let mut core = loaded.core;
    core.boundary_id = "gone#0".to_string();
    core.reconcile_pending = true;
    let mut meta = loaded.meta;
    meta.coverage_ordinal = Some(3);
    meta.folded_compartment_seq = 3;
    meta.synthetic_todo
        .as_mut()
        .expect("first bust freezes a synthetic todo")
        .anchor_mid = Some("gone".to_string());
    let rv = s
        .commit("shrink", loaded.row_version, &core, &meta)
        .unwrap();

    s.truncate_compartments_for_revert("shrink", 1, Some(rv))
        .unwrap();
    let recovered = run(&mut s,
        &req(
            "shrink",
            "cfg0",
            vec![
                item("a", 1, "raw"),
                todowrite_call("todo", 2, todos),
                item("tail", 4, "new post-revert tail"),
            ],
        ),
        &spine(),
    );

    assert_eq!(recovered.action, "HARD");
    assert_eq!(recovered.boundary_id, "a#0");
    assert_eq!(synthetic_todo_call_id(&recovered), first_call_id);
    assert_eq!(synthetic_todo_pair_bytes(&recovered), first_pair);
    assert_eq!(
        s.load("shrink")
            .meta
            .synthetic_todo
            .as_ref()
            .and_then(|pair| pair.anchor_mid.as_deref()),
        Some("tail")
    );
}

#[test]
fn synthetic_todo_defer_after_keep_reanchor_replays_at_new_position() {
    let mut s = McStore::new();
    s.replace_compartments("keep-fold-defer", &[comp(1, 1, 1, "a", "SUMMARY-1")])
        .unwrap();
    let todos = todo_list(&[("Fold defer", "pending", "high")]);
    run(&mut s,
        &req(
            "keep-fold-defer",
            "cfg0",
            vec![
                item("a", 1, "raw"),
                todowrite_call("todo", 2, todos.clone()),
            ],
        ),
        &spine(),
    );

    s.replace_compartments(
        "keep-fold-defer",
        &[
            comp(1, 1, 1, "a", "SUMMARY-1"),
            comp(2, 2, 2, "todo", "SUMMARY-2"),
        ],
    )
    .unwrap();
    let moved_items = vec![
        item("a", 1, "raw"),
        todowrite_call("todo", 2, todos),
        item("t3", 3, "new tail end"),
    ];
    let moved = run(&mut s,
        &req("keep-fold-defer", "cfg0", moved_items.clone()),
        &spine(),
    );
    let moved_prefix = prefix_through_synthetic_todo(&moved);

    let defer = run(&mut s, &req("keep-fold-defer", "cfg0", moved_items), &spine());

    assert_eq!(defer.action, "SOFT+");
    assert_eq!(
        synthetic_todo_index(&defer),
        message_index(&defer, "t3") + 1
    );
    assert_eq!(prefix_through_synthetic_todo(&defer), moved_prefix);
}

#[test]
fn synthetic_todo_replace_relocates_to_new_tail_end() {
    let mut s = McStore::new();
    s.replace_compartments("replace", &[comp(1, 1, 1, "a", "SUMMARY")])
        .unwrap();
    let first_todos = todo_list(&[("Old", "pending", "high")]);
    let first = run(&mut s,
        &req(
            "replace",
            "cfg0",
            vec![item("a", 1, "raw"), todowrite_call("todo", 2, first_todos)],
        ),
        &spine(),
    );
    let first_call_id = synthetic_todo_call_id(&first);

    let changed_todos = todo_list(&[("New", "pending", "high")]);
    let second = run(&mut s,
        &req(
            "replace",
            "cfg1",
            vec![
                item("a", 1, "raw"),
                item("later", 3, "tail before changed todo"),
                todowrite_call("todo2", 4, changed_todos),
            ],
        ),
        &spine(),
    );

    assert_eq!(second.action, "HARD");
    assert_ne!(synthetic_todo_call_id(&second), first_call_id);
    assert_eq!(
        synthetic_todo_index(&second),
        message_index(&second, "todo2") + 1
    );
}

#[test]
fn synthetic_todo_clear_removes_pair_for_terminal_state() {
    let mut s = McStore::new();
    s.replace_compartments("clear", &[comp(1, 1, 1, "a", "SUMMARY")])
        .unwrap();
    let active = todo_list(&[("Active", "pending", "high")]);
    run(&mut s,
        &req(
            "clear",
            "cfg0",
            vec![item("a", 1, "raw"), todowrite_call("todo", 2, active)],
        ),
        &spine(),
    );

    let terminal = todo_list(&[("Done", "completed", "high"), ("Cancelled", "cancelled", "low")]);
    let cleared = run(&mut s,
        &req(
            "clear",
            "cfg1",
            vec![item("a", 1, "raw"), todowrite_call("done", 3, terminal)],
        ),
        &spine(),
    );

    assert_eq!(cleared.action, "HARD");
    assert!(cleared.messages().iter().all(|m| {
        !matches!(
            m.content.first().map(|block| &block.kind),
            Some(CkKind::ToolCall { name, .. }) if name == "todowrite"
        ) || !m.meta.synthetic
    }));
    assert!(s.load("clear").meta.synthetic_todo.is_none());
}

#[test]
fn synthetic_todo_aged_out_capture_composes_from_meta_on_bust() {
    let mut s = McStore::new();
    s.replace_compartments("aged", &[comp(1, 1, 2, "todo", "SUMMARY")])
        .unwrap();
    let todos = todo_list(&[("Persisted", "pending", "high")]);
    run(&mut s,
        &req(
            "aged",
            "cfg0",
            vec![item("a", 1, "raw"), todowrite_call("todo", 2, todos)],
        ),
        &spine(),
    );
    let loaded = s.load("aged");
    let mut meta = loaded.meta;
    meta.synthetic_todo = None;
    meta.last_render_config = "force a hard".to_string();
    s.commit("aged", loaded.row_version, &loaded.core, &meta)
        .unwrap();

    let aged = run(&mut s,
        &req(
            "aged",
            "cfg1",
            vec![
                item("a", 1, "raw"),
                todowrite_call(
                    "todo",
                    2,
                    todo_list(&[("Persisted", "pending", "high")]),
                ),
            ],
        ),
        &spine(),
    );

    assert_eq!(aged.action, "HARD");
    assert_eq!(tail_ids(&aged), Vec::<&str>::new());
    assert_eq!(
        synthetic_todo_index(&aged),
        2,
        "None anchor appends after m0/m1 when no real tail remains"
    );
    assert!(s.load("aged").meta.synthetic_todo.is_some());
}

#[test]
fn synthetic_todo_none_anchor_stays_before_grown_tail_on_defer() {
    let mut s = McStore::new();
    s.replace_compartments("none-anchor", &[comp(1, 1, 2, "todo", "SUMMARY")])
        .unwrap();
    let todos = todo_list(&[("Persisted", "pending", "high")]);
    run(&mut s,
        &req(
            "none-anchor",
            "cfg0",
            vec![
                item("a", 1, "raw"),
                todowrite_call("todo", 2, todos.clone()),
            ],
        ),
        &spine(),
    );
    let loaded = s.load("none-anchor");
    let mut meta = loaded.meta;
    meta.synthetic_todo = None;
    meta.last_render_config = "force a hard".to_string();
    s.commit("none-anchor", loaded.row_version, &loaded.core, &meta)
        .unwrap();
    let composed = run(&mut s,
        &req(
            "none-anchor",
            "cfg1",
            vec![
                item("a", 1, "raw"),
                todowrite_call("todo", 2, todos.clone()),
            ],
        ),
        &spine(),
    );
    assert_eq!(composed.action, "HARD");
    assert_eq!(tail_ids(&composed), Vec::<&str>::new());
    assert_eq!(synthetic_todo_index(&composed), 2);
    assert!(
        s.load("none-anchor")
            .meta
            .synthetic_todo
            .as_ref()
            .unwrap()
            .anchor_mid
            .is_none(),
        "the empty-tail compose must freeze anchor_mid = None"
    );
    let composed_prefix = prefix_through_synthetic_todo(&composed);

    let defer = run(&mut s,
        &req(
            "none-anchor",
            "cfg1",
            vec![
                item("a", 1, "raw"),
                todowrite_call("todo", 2, todos),
                item("t3", 3, "tail grew after the None-anchor compose"),
            ],
        ),
        &spine(),
    );

    assert_eq!(defer.action, "SOFT+");
    assert_eq!(synthetic_todo_index(&defer), 2);
    assert!(message_index(&defer, "t3") > synthetic_todo_index(&defer));
    assert_eq!(prefix_through_synthetic_todo(&defer), composed_prefix);
}

#[test]
fn synthetic_todo_defer_anchor_vanished_fails_loud() {
    let mut s = McStore::new();
    s.replace_compartments("vanished", &[comp(1, 1, 1, "a", "SUMMARY")])
        .unwrap();
    let todos = todo_list(&[("Anchor", "pending", "high")]);
    run(&mut s,
        &req(
            "vanished",
            "cfg0",
            vec![item("a", 1, "raw"), todowrite_call("todo", 2, todos)],
        ),
        &spine(),
    );
    let before = s.load("vanished").row_version;

    let err = transform(&mut s,
        &req(
            "vanished",
            "cfg0",
            vec![item("a", 1, "raw"), item("later", 3, "tail without anchor")],
        ),
        &pctx("git:proj", 0),
    )
    .unwrap_err();

    assert!(matches!(err, TransformError::SyntheticTodoAnchorMissing(mid) if mid == "todo"));
    assert_eq!(s.load("vanished").row_version, before);
}

fn reduce(target: &str, kind: &str, payload: &str) -> ReductionDecision {
    ReductionDecision {
        target_id: target_id(target),
        kind: kind.to_string(),
        payload: payload.to_string(),
    }
}
fn with_reductions(rs: Vec<ReductionDecision>) -> Vec<ReductionDecision> {
    rs
}
fn first_block_text(block: &CkWireBlock) -> Option<&str> {
    match &block.kind {
        CkKind::Text { text } => Some(text.as_str()),
        CkKind::ToolResult { output, .. } => match &output.kind {
            CkOutputKind::Text { text } => Some(text.as_str()),
            _ => None,
        },
        _ => None,
    }
}
fn tail_bytes<'a>(r: &'a TransformResponse, id: &str) -> &'a str {
    let msg = r
        .messages()
        .iter()
        .find(|m| !m.meta.synthetic && m.meta.harness_id.as_deref() == Some(id))
        .unwrap_or_else(|| panic!("no tail item {id}"));
    first_block_text(msg.content.first().unwrap()).unwrap()
}

fn bootstrap_covering_a(s: &mut McStore) {
    s.replace_compartments("ses", &[comp(1, 1, 1, "a", "SUMMARY")])
        .unwrap();
    run(s, &req("ses", "cfg0", vec![item("a", 1, "raw")]), &spine());
}

#[test]
fn reduction_freezes_on_bust_replays_on_defer() {
    let mut s = McStore::new();
    bootstrap_covering_a(&mut s);

    let items = vec![item("a", 1, "raw"), item("t2", 2, "BIGOUTPUT")];
    let d = with_reductions(vec![reduce("t2", "drop", "[dropped 1]")]);
    let soft = run(&mut s, &req("ses", "cfg0", items.clone()), &d);
    assert_eq!(soft.action, "SOFT", "a new reduction rides a SOFT");
    assert_eq!(
        tail_bytes(&soft, "t2"),
        "[dropped 1]",
        "t2 reduced in place"
    );
    assert_eq!(
        tail_ids(&soft),
        vec!["t2"],
        "covered 'a' trimmed, only t2 in tail"
    );

    for _ in 0..3 {
        let after = run(&mut s, &req("ses", "cfg0", items.clone()), &d);
        assert_eq!(after.action, "SOFT+", "no new reduction → pure defer");
        assert!(!after.committed, "pure defer must not write");
        assert_eq!(tail_bytes(&after, "t2"), "[dropped 1]");
    }
}

#[test]
fn frozen_reduction_never_first_applied_on_defer() {
    let mut s = McStore::new();
    bootstrap_covering_a(&mut s);

    let d = with_reductions(vec![reduce("t2", "strip", "[dropped 99999]")]);
    run(&mut s,
        &req(
            "ses",
            "cfg0",
            vec![item("a", 1, "raw"), item("t2", 2, "OUT")],
        ),
        &d,
    );

    for n in 3..=6u64 {
        let mut items = vec![item("a", 1, "raw"), item("t2", 2, "OUT")];
        for k in 3..=n {
            items.push(item(&format!("t{k}"), k, &format!("new{k}")));
        }
        let r = run(&mut s, &req("ses", "cfg0", items), &d);
        assert_eq!(
            r.action, "SOFT+",
            "an aged-but-unchanged reduction set defers"
        );
        assert!(
            r.committed,
            "first-seen tail mids persist identity vectors even on a defer"
        );
        assert_eq!(
            tail_bytes(&r, "t2"),
            "[dropped 99999]",
            "frozen strip replays"
        );
    }
}

#[test]
fn skeleton_byte_complete_across_moving_window() {
    let mut s = McStore::new();
    bootstrap_covering_a(&mut s);

    let skel = "edit packages/app/x.ts | @@ -10,6 +10,8 @@ [dropped 1]";
    let d1 = with_reductions(vec![reduce("edit1", "edit_marker", skel)]);
    let items1 = vec![item("a", 1, "raw"), item("edit1", 2, "FULL-DIFF-BYTES")];
    let frozen = run(&mut s, &req("ses", "cfg0", items1), &d1);
    assert_eq!(tail_bytes(&frozen, "edit1"), skel);

    let skel2 = "edit packages/app/y.ts | @@ -1,2 +1,3 @@ [dropped 2]";
    let d2 = with_reductions(vec![
        reduce("edit1", "edit_marker", skel),
        reduce("edit2", "edit_marker", skel2),
    ]);
    let items2 = vec![
        item("a", 1, "raw"),
        item("edit1", 2, "FULL-DIFF-BYTES"),
        item("edit2", 3, "ANOTHER-FULL-DIFF"),
    ];
    let moved = run(&mut s, &req("ses", "cfg0", items2), &d2);
    assert_eq!(moved.action, "SOFT", "the new edit2 reduction rides a SOFT");
    assert_eq!(tail_bytes(&moved, "edit1"), skel, "older skeleton verbatim");
    assert_eq!(tail_bytes(&moved, "edit2"), skel2, "new skeleton frozen");
}

#[test]
fn fold_gcs_a_reduction_whose_item_becomes_covered() {
    let mut s = McStore::new();
    bootstrap_covering_a(&mut s);

    let d = with_reductions(vec![reduce("t2", "drop", "[dropped 1]")]);
    run(&mut s,
        &req(
            "ses",
            "cfg0",
            vec![item("a", 1, "raw"), item("t2", 2, "HUGE")],
        ),
        &d,
    );

    s.replace_compartments(
        "ses",
        &[comp(1, 1, 1, "a", "S1"), comp(2, 2, 2, "t2", "S2")],
    )
    .unwrap();
    let r = run(&mut s,
        &req(
            "ses",
            "cfg1",
            vec![item("a", 1, "raw"), item("t2", 2, "HUGE")],
        ),
        &d,
    );
    assert_eq!(r.action, "HARD");
    assert_eq!(r.boundary_id, "t2#0", "anchor = last compartment end id");
    assert!(
        m0_bytes(&r).contains("S2"),
        "m0 is the summary, not [dropped 1]: {}",
        m0_bytes(&r)
    );
    assert!(
        !m0_bytes(&r).contains("[dropped 1]"),
        "m0 never carries reduced bytes"
    );
    let reloaded = s.load("ses");
    assert!(
        !reloaded
            .core
            .frozen_units
            .iter()
            .any(|u| u.key == "red:t2#0"),
        "covered reduction GC'd"
    );
    assert!(tail_ids(&r).is_empty(), "both items covered, tail empty");
}

#[test]
fn coalesced_memory_delta_and_reduction_one_soft() {
    let mut s = McStore::new();
    bootstrap_covering_a(&mut s);

    s.seed_memory(5, "git:proj", "ARCHITECTURE", "a rule", 70)
        .unwrap();
    let d = with_reductions(vec![reduce("t2", "drop", "[dropped 1]")]);
    let items = vec![item("a", 1, "raw"), item("t2", 2, "OUT")];
    let r = run(&mut s, &req("ses", "cfg0", items.clone()), &d);
    assert_eq!(r.action, "SOFT");
    assert!(
        m1_bytes(&r).contains("a rule"),
        "m1 delta rendered: {}",
        m1_bytes(&r)
    );
    assert_eq!(
        tail_bytes(&r, "t2"),
        "[dropped 1]",
        "reduction frozen, same SOFT"
    );

    let after = run(&mut s, &req("ses", "cfg0", items), &d);
    assert_eq!(after.action, "SOFT+");
    assert!(!after.committed);
    assert_eq!(m1_bytes(&after), m1_bytes(&r));
    assert_eq!(tail_bytes(&after, "t2"), "[dropped 1]");
}

#[test]
fn reverted_orphan_reduction_gcd_on_reconcile_hard() {
    let mut s = McStore::new();
    bootstrap_covering_a(&mut s);

    let d = with_reductions(vec![reduce("t2", "drop", "[dropped 1]")]);
    run(&mut s,
        &req(
            "ses",
            "cfg0",
            vec![item("a", 1, "raw"), item("t2", 2, "OUT")],
        ),
        &d,
    );

    let revert = run(&mut s,
        &req("ses", "cfg0", vec![item("z", 9, "other")]),
        &spine(),
    );
    assert_eq!(revert.action, "SOFT+");
    assert!(revert.reconcile_pending);

    s.replace_compartments("ses", &[]).unwrap();
    let remat = run(&mut s,
        &req("ses", "cfg0", vec![item("a2", 10, "reverted")]),
        &spine(),
    );
    assert_eq!(remat.action, "HARD");
    assert!(
        !m0_bytes(&remat).contains("[dropped 1]"),
        "no orphaned reduction in m0"
    );
    let reloaded = s.load("ses");
    assert!(
        !reloaded
            .core
            .frozen_units
            .iter()
            .any(|u| u.key == "red:t2#0"),
        "orphan red:t2#0 GC'd"
    );
}

#[test]
fn monotonicity_violation_fails_loud() {
    let mut s = McStore::new();
    bootstrap_covering_a(&mut s);

    let d = with_reductions(vec![reduce("t2", "drop", "[dropped 1]")]);
    let items = vec![item("a", 1, "raw"), item("t2", 2, "OUT")];
    run(&mut s, &req("ses", "cfg0", items.clone()), &d);

    let bad = with_reductions(vec![reduce("t2", "drop", "[dropped DIFFERENT]")]);
    let mut ctx = pctx("git:proj", 0);
    ctx.injected_reductions = bad;
    let err = transform(&mut s, &req("ses", "cfg0", items), &ctx).unwrap_err();
    assert!(matches!(err, TransformError::ReductionConflict));
}

#[test]
fn interleaved_reduction_keeps_surrounding_tail_verbatim() {
    let mut s = McStore::new();
    bootstrap_covering_a(&mut s);

    let d = with_reductions(vec![reduce("t3", "drop", "[dropped 1]")]);
    let items = vec![
        item("a", 1, "raw"),
        item("t2", 2, "before"),
        item("t3", 3, "REDUCED-AWAY"),
        item("t4", 4, "after"),
    ];
    let soft = run(&mut s, &req("ses", "cfg0", items.clone()), &d);
    assert_eq!(soft.action, "SOFT");
    assert_eq!(
        tail_ids(&soft),
        vec!["t2", "t3", "t4"],
        "order + ids preserved"
    );
    assert_eq!(tail_bytes(&soft, "t2"), "before");
    assert_eq!(tail_bytes(&soft, "t3"), "[dropped 1]");
    assert_eq!(tail_bytes(&soft, "t4"), "after");

    let after = run(&mut s, &req("ses", "cfg0", items), &d);
    assert_eq!(after.action, "SOFT+");
    assert_eq!(tail_bytes(&after, "t2"), "before");
    assert_eq!(tail_bytes(&after, "t3"), "[dropped 1]");
    assert_eq!(tail_bytes(&after, "t4"), "after");
}

#[test]
fn shape_tighten_rejects_missing_m1_but_allows_red() {
    let mut s = McStore::new();
    let dc = pctx("git:proj", 0);
    let bad = CoreState {
        version: 1,
        boundary_id: "a#0".into(),
        frozen_units: vec![
            synth_region("m0", "BASE".to_string()),
            red_unit(&reduce("t2#0", "drop", "[dropped 1]")),
        ],
        pending_changes: vec![],
        reconcile_pending: false,
    };
    let meta = ModuleMeta {
        initialized: true,
        last_render_config: "cfg0".into(),
        coverage_ordinal: Some(1),
        ..Default::default()
    };
    s.commit("ses", None, &bad, &meta).unwrap();
    let err = transform(&mut s, &req("ses", "cfg0", vec![item("a", 1, "BASE")]), &dc).unwrap_err();
    assert!(
        matches!(err, TransformError::UnknownShape(_)),
        "missing m1 rejects"
    );

    let good = CoreState {
        version: 1,
        boundary_id: "a#0".into(),
        frozen_units: vec![
            synth_region("m0", "BASE".to_string()),
            synth_region("m1", M1_PLACEHOLDER.to_string()),
            red_unit(&reduce("t2#0", "drop", "[dropped 1]")),
        ],
        pending_changes: vec![],
        reconcile_pending: false,
    };
    let good_cfg = fold_epoch("cfg0", &s.workspace_fingerprint("git:proj"));
    let good_meta = ModuleMeta {
        initialized: true,
        last_render_config: good_cfg,
        coverage_ordinal: Some(1),
        m1_revision: m1_revision_signal(&s, "git:proj", &s.load_compartments("ses2")),
        ..Default::default()
    };
    s.commit("ses2", None, &good, &good_meta).unwrap();
    let ok = transform(&mut s, &req("ses2", "cfg0", vec![item("a", 1, "BASE")]), &dc).unwrap();
    assert_eq!(ok.action, "SOFT+", "m0+m1+red is a valid shape");
}



// --- answers, requests and residual rules -----------------------------------------------

fn spoken(mid: &str, ordinal: u64) -> CkIngressMessage {
    CkIngressMessage {
        mid: mid.to_string(),
        ordinal,
        ck: CkWireMessage::from_parts(
            "assistant",
            vec![
                CkWireBlock::bare(CkKind::Reasoning {
                    text: "thinking".to_string(),
                    signature: Some("sig".to_string()),
                }),
                CkWireBlock::bare(CkKind::RedactedReasoning {
                    data: "opaque".to_string(),
                }),
                CkWireBlock::bare(CkKind::Text {
                    text: "said".to_string(),
                }),
            ],
            None,
            ProviderExtras::new(),
            HarnessMeta {
                harness_id: Some(mid.to_string()),
                ..Default::default()
            },
        ),
    }
}

fn one_of_each() -> Vec<CkIngressMessage> {
    vec![
        item("m0", 1, "hello"),
        spoken("m1", 2),
        assistant_tool_call("m2", 3, "call_0"),
        tool_result("m3", 4, "call_0", "result"),
        empty_message("m4", 5),
    ]
}

#[test]
fn response_shape_is_bare_ck_messages_and_reduced_tool_result_stays_paired() {
    let mut s = McStore::new();
    let messages = vec![
        assistant_tool_call("call", 1, "call_0"),
        tool_result("result", 2, "call_0", "large output"),
    ];
    let r = run(
        &mut s,
        &req("shape", "cfg0", messages),
        &with_reductions(vec![reduce("result#0", "drop", "[dropped 12]")]),
    );
    assert!(r.coverage_ordinal.is_none());
    let ck_messages = r.messages();
    assert_eq!(ck_messages[0].role, "user");
    assert!(ck_messages[0].meta.synthetic);
    assert_eq!(ck_messages[0].content.len(), 1);
    assert!(ck_messages[1].meta.synthetic);
    let reduced_tool = ck_messages.last().unwrap();
    assert_eq!(reduced_tool.content[0].kind.tag(), "tool_result");
    assert!(matches!(
        &reduced_tool.content[0].kind,
        CkKind::ToolResult { id, .. } if id == "call_0"
    ));
    assert_eq!(first_block_text(&reduced_tool.content[0]), Some("[dropped 12]"));
}

#[test]
fn unreduced_golden_messages_are_passed_through_by_identity() {
    let mut s = McStore::new();
    let inbound = one_of_each();
    let r = run(&mut s, &req("identity", "cfg0", inbound.clone()), &spine());
    let tail: Vec<_> = r.messages().iter().filter(|m| !m.meta.synthetic).collect();
    assert_eq!(tail.len(), inbound.len());
    for (input, output) in inbound.iter().zip(tail) {
        assert_eq!(
            &input.ck, output,
            "unreduced mid {} must be returned by identity",
            input.mid
        );
    }
}

#[test]
fn pure_passthrough_defer_round_trips_tail_byte_identical() {
    let mut s = McStore::new();
    let inbound = one_of_each();
    s.replace_compartments("roundtrip", &[comp(1, 1, 1, "m0", "SUMMARY")])
        .unwrap();
    run(&mut s, &req("roundtrip", "cfg0", inbound.clone()), &spine());
    let r = run(&mut s, &req("roundtrip", "cfg0", inbound.clone()), &spine());
    assert_eq!(r.action, "SOFT+");
    assert!(!r.committed);
    let tail: Vec<_> = r.messages().iter().filter(|m| !m.meta.synthetic).collect();
    assert_eq!(tail.len(), inbound.len() - 1);
    for (input, output) in inbound.iter().skip(1).zip(tail) {
        assert_eq!(&input.ck, output);
    }
}

#[test]
fn pure_defer_with_scheduler_fields_present_keeps_row_version_stable() {
    let mut s = McStore::new();
    bootstrap_covering_a(&mut s);
    let mut loaded = s.load("ses");
    loaded.meta.deferred_execute_state = None;
    loaded.meta.emergency_drain_active = false;
    loaded.meta.emergency_drain_entered_at_ms = 0;
    loaded.meta.last_execute_ordinal = 2;
    loaded.meta.has_prior_emergency_drop = true;
    loaded.meta.last_emergency_input_sample = 50;
    s.commit("ses", loaded.row_version, &loaded.core, &loaded.meta)
        .unwrap();
    let row_before = s.load("ses").row_version.unwrap();
    let response = transform(
        &mut s,
        &req("ses", "cfg0", vec![item("a", 1, "raw")]),
        &pctx("git:proj", 0),
    )
    .unwrap();
    assert_eq!(response.action, "SOFT+");
    assert!(!response.committed);
    assert_eq!(s.load("ses").row_version.unwrap(), row_before);
}

#[test]
fn transform_request_parses_full_flat_wire_envelope() {
    let parsed = request_from_wire(TransformRequestWire {
        kind: "transform".to_string(),
        v: 2,
        serializer_profile: Some("owned-llmrunner".to_string()),
        session_id: "ses".to_string(),
        render_config: "cfg".to_string(),
        full_array_fingerprint: Some("fp-full-array".to_string()),
        messages: vec![item("m", 7, "hello")],
        usage: Some(ModuleUsage {
            current_total_input_tokens: 1,
            context_limit_tokens: 2,
        }),
        provider_error: Some("prompt is too long".to_string()),
        ..Default::default()
    });
    assert_eq!(parsed.kind, "transform");
    assert_eq!(parsed.v, 2);
    assert_eq!(parsed.serializer_profile, "owned-llmrunner");
    assert_eq!(parsed.full_array_fingerprint.as_deref(), Some("fp-full-array"));
    assert_eq!(parsed.messages[0].mid, "m");
    assert_eq!(parsed.usage.unwrap().context_limit_tokens, 2);
    assert_eq!(parsed.provider_error.as_deref(), Some("prompt is too long"));
}

#[test]
fn transform_request_legacy_items_shim_parses_with_v2_profile() {
    let legacy = || LegacyCkItemWire {
        id: "legacy".to_string(),
        ordinal: 3,
        bytes: "hello".to_string(),
        synthetic: false,
    };
    let parsed = request_from_wire(TransformRequestWire {
        kind: "transform".to_string(),
        v: 2,
        serializer_profile: Some("owned-llmrunner".to_string()),
        session_id: "ses".to_string(),
        render_config: "cfg".to_string(),
        items: vec![legacy()],
        ..Default::default()
    });
    assert_eq!(parsed.messages.len(), 1);
    assert_eq!(parsed.messages[0].mid, "legacy");
    assert_eq!(parsed.messages[0].ordinal, 3);
    assert_eq!(first_block_text(&parsed.messages[0].ck.content[0]), Some("hello"));
    assert_eq!(parsed.serializer_profile, "owned-llmrunner");

    let both = request_from_wire(TransformRequestWire {
        messages: vec![item("m", 1, "kept")],
        items: vec![legacy()],
        ..Default::default()
    });
    assert_eq!(both.messages.len(), 1);
    assert_eq!(both.messages[0].mid, "m");
    assert_eq!(both.serializer_profile, "");
}

#[test]
fn reasoning_strip_residual_is_profile_gated_by_merge_coverage() {
    fn assistant(mid: &str, reasoning: &str, text: &str) -> CkWireMessage {
        CkWireMessage::from_parts(
            "assistant",
            vec![
                CkWireBlock::bare(CkKind::Reasoning {
                    text: reasoning.to_string(),
                    signature: Some(format!("sig-{mid}")),
                }),
                CkWireBlock::bare(CkKind::Text {
                    text: text.to_string(),
                }),
            ],
            None,
            ProviderExtras::new(),
            HarnessMeta {
                harness_id: Some(mid.to_string()),
                ..Default::default()
            },
        )
    }

    let base = vec![
        assistant("a1", "keep-first", "answer one"),
        assistant("a2", "strip-second", "answer two"),
    ];
    let inbound: Vec<CkIngressMessage> = base
        .iter()
        .enumerate()
        .map(|(i, ck)| CkIngressMessage {
            mid: format!("a{}", i + 1),
            ordinal: i as u64 + 1,
            ck: ck.clone(),
        })
        .collect();
    let anthropic = format!("{:?}Anthropic", Harness::ClaudeCode);
    for (profile, strips) in [
        ("owned-llmrunner", false),
        ("pi", false),
        (anthropic.as_str(), false),
        ("opencode-ai-sdk", true),
    ] {
        let mut s = McStore::new();
        let mut request = req("ses", "cfg0", inbound.clone());
        request.serializer_profile = profile.to_string();
        let r = run(&mut s, &request, &spine());
        let second = r.messages().last().unwrap();
        assert_eq!(
            matches!(&second.content[0].kind, CkKind::Reasoning { .. }),
            !strips
        );
    }

    let mut messages = base;
    assert_eq!(strip_reasoning_from_merged_assistants(&mut messages), 1);
    assert!(matches!(
        &messages[0].content[0].kind,
        CkKind::Reasoning { .. }
    ));
    assert!(matches!(
        &messages[1].content[0].kind,
        CkKind::Text { text } if text.is_empty()
    ));
}

#[test]
fn token_estimator_is_hard_only_never_called_on_soft_or_defer() {
    let mut s = McStore::new();
    let ctx = pctx("git:proj", 0);

    s.replace_compartments("ses", &[comp(1, 1, 10, "m10", "S1")])
        .unwrap();
    let boot = transform(
        &mut s,
        &req(
            "ses",
            "cfg0",
            vec![item("m10", 10, "raw"), item("t11", 11, "tail")],
        ),
        &ctx,
    )
    .unwrap();
    assert_eq!(boot.action, "HARD");
    assert!(ctx.histories.get() > 0, "a HARD renders the whole history");

    s.replace_compartments(
        "ses",
        &[comp(1, 1, 10, "m10", "S1"), comp(2, 11, 20, "m20", "S2")],
    )
    .unwrap();
    ctx.histories.set(0);
    let soft_items = vec![
        item("m10", 10, "raw"),
        item("m20", 20, "raw2"),
        item("t21", 21, "tail"),
    ];
    let soft = transform(&mut s, &req("ses", "cfg0", soft_items.clone()), &ctx).unwrap();
    assert_eq!(soft.action, "SOFT");
    assert_eq!(ctx.histories.get(), 0, "a SOFT renders the delta only");

    ctx.histories.set(0);
    let defer = transform(&mut s, &req("ses", "cfg0", soft_items), &ctx).unwrap();
    assert_eq!(defer.action, "SOFT+");
    assert_eq!(ctx.histories.get(), 0, "a defer renders nothing");
}

#[test]
fn a_pass_overtaken_by_another_writer_starts_over() {
    let mut s = McStore::new();
    bootstrap_covering_a(&mut s);
    let request = req("ses", "cfg0", vec![item("a", 1, "raw"), item("b", 2, "new")]);
    let ctx = pctx("git:proj", 0);
    let projection = || project_messages(&request.messages);
    let mut pass = transform_with_projection(
        request.clone(),
        "git:proj".to_string(),
        M1_PLACEHOLDER.to_string(),
        0,
    )
    .projected(&s, projection());
    let signals = match &pass.stage {
        PassStage::Signal(begun) => PassSignals {
            render_config: "cfg0".to_string(),
            m1_digest: begun.value.start.meta.m1_revision,
            outcome: schedule(&ctx, &begun.value),
        },
        other => panic!("expected signals, got {other:?}"),
    };
    pass = pass.signalled(signals).planned(PassPlan::Defer, None);
    let core = match &pass.stage {
        PassStage::Replay(at) => step(&at.value.on.work.core, &at.value.input),
        other => panic!("expected a replay, got {other:?}"),
    };
    pass = pass.stepped(core, None).injected(InjectionOutcome::Nothing);

    let other = s.load("ses");
    s.commit("ses", other.row_version, &other.core, &other.meta)
        .unwrap();
    let before = s.load("ses").row_version;
    pass = pass.rendered(&mut s, Vec::new(), false);
    assert_eq!(pass.stage, PassStage::Project);
    assert_eq!(pass.job.attempt, 1);
    assert_eq!(s.load("ses").row_version, before);
}

#[test]
fn an_answer_that_is_not_awaited_changes_nothing() {
    let request = req("ses", "cfg0", vec![item("a", 1, "raw")]);
    let pass = transform_with_projection(
        request.clone(),
        "git:proj".to_string(),
        M1_PLACEHOLDER.to_string(),
        0,
    );
    let pass = pass.injected(InjectionOutcome::Clear).planned(PassPlan::Hard, None);
    assert_eq!(pass.stage, PassStage::Project);
    assert_eq!(pass.job.request, request);
}

#[test]
fn a_conversation_that_cannot_be_flattened_fails_the_pass() {
    let s = McStore::new();
    let pass = transform_with_projection(
        req("ses", "cfg0", Vec::new()),
        "git:proj".to_string(),
        M1_PLACEHOLDER.to_string(),
        0,
    )
    .projected(&s, Err("unsupported block x#0".to_string()));
    match pass.stage {
        PassStage::Failed(e) => assert_eq!(e.text(), "ck wire: unsupported block x#0"),
        other => panic!("expected a failure, got {other:?}"),
    }
}

#[test]
fn the_texts_of_transform_errors() {
    let texts = [
        (
            TransformError::OrdinalViolation,
            "live-source ordinals not strictly increasing",
        ),
        (
            TransformError::ReservedId,
            "non-synthetic item used a reserved mc_* id",
        ),
        (
            TransformError::UnknownShape("why".to_string()),
            "unknown frozen-set shape: why",
        ),
        (
            TransformError::ReductionConflict,
            "decider re-supplied an already-frozen reduction target with different bytes",
        ),
        (TransformError::CoverageGap("gap".to_string()), "gap"),
        (
            TransformError::DuplicateBlockId("a#0".to_string()),
            "duplicate flattened block id: a#0",
        ),
        (
            TransformError::IdentityDrift("a".to_string()),
            "CK message block identity drift for mid a",
        ),
        (
            TransformError::SyntheticTodoAnchorMissing("a".to_string()),
            "synthetic todo anchor mid a is missing from the live tail",
        ),
        (
            TransformError::FrozenRedTargetVanish("a#1".to_string()),
            "frozen reduction target vanished while its message is live: a#1",
        ),
        (
            TransformError::BoundaryNotPresent("b".to_string()),
            "minted boundary not present: b",
        ),
    ];
    for (e, text) in texts {
        assert_eq!(e.text(), text);
    }
}

#[test]
fn a_boundary_that_is_not_there_is_quoted() {
    let mut s = McStore::new();
    s.replace_compartments(
        "ses",
        &[StoredCompartment {
            sequence: 0,
            start_message: 1,
            end_message: 1,
            end_message_id: "say \"m1\"".to_string(),
            ..Default::default()
        }],
    )
    .unwrap();
    let err = transform(
        &mut s,
        &req("ses", "cfg0", vec![item("m1", 1, "raw")]),
        &pctx("git:proj", 0),
    )
    .unwrap_err();
    assert!(
        err.text().starts_with(r#"minted boundary not present: fold minted anchor "say \"m1\"" from"#),
        "{}",
        err.text()
    );
}

#[test]
fn answers_without_state() {
    let full = TransformResponse::need_full_sync(Some("fp".to_string()));
    assert_eq!(full.status, TransformStatus::NeedFullSync);
    assert_eq!(full.action, "NEED_FULL_SYNC");
    assert_eq!(full.full_array_fingerprint.as_deref(), Some("fp"));
    assert!(full.ck_messages.is_none());
    assert!(full.messages().is_empty());

    let passed = TransformResponse::passthrough(vec![text_message("a", "hi")], None);
    assert_eq!(passed.status, TransformStatus::Served);
    assert_eq!(passed.action, "PASSTHROUGH");
    assert_eq!(passed.messages(), &[text_message("a", "hi")]);
    assert!(!passed.committed);
}

#[test]
fn restart_replays_byte_identical() {
    let mut s = McStore::new();
    s.replace_compartments("ses", &[comp(1, 1, 1, "m1msg", "SUMMARY")])
        .unwrap();
    run(
        &mut s,
        &req("ses", "cfg0", vec![item("m1msg", 1, "raw")]),
        &spine(),
    );
    let r = run(
        &mut s,
        &req("ses", "cfg0", vec![item("m1msg", 1, "raw")]),
        &spine(),
    );
    let bytes_m0 = m0_bytes(&r).to_string();
    let bytes_m1 = m1_bytes(&r).to_string();
    let mut s2 = McStore::new();
    std::mem::swap(&mut s2.cache, &mut s.cache);
    std::mem::swap(&mut s2.compartments, &mut s.compartments);
    let after = run(
        &mut s2,
        &req("ses", "cfg0", vec![item("m1msg", 1, "raw")]),
        &spine(),
    );
    assert_eq!(after.action, "SOFT+");
    assert!(!after.committed);
    assert_eq!(m0_bytes(&after), bytes_m0);
    assert_eq!(m1_bytes(&after), bytes_m1);
}

#[test]
fn a_deferred_pass_repeats() {
    let mut s = McStore::new();
    let ctx = pctx("git:proj", 0);
    s.replace_compartments("ses", &[comp(1, 1, 10, "m10", "S1")]).unwrap();
    let request = || req("ses", "cfg0", vec![item("m10", 10, "raw"), item("t11", 11, "tail")]);
    let first = transform(&mut s, &request(), &ctx).unwrap();
    assert_eq!((first.action.as_str(), first.committed), ("HARD", true));
    let held = format!("{s:?}");
    ctx.histories.set(0);
    for _ in 0..2 {
        let again = transform(&mut s, &request(), &ctx).unwrap();
        assert_eq!((again.action.as_str(), again.committed), ("SOFT+", false));
        assert_eq!(again.row_version, first.row_version);
        assert_eq!(again.ck_messages, first.ck_messages);
        assert_eq!(ctx.histories.get(), 0, "a replay renders no history");
        assert_eq!(format!("{s:?}"), held);
    }
}

#[test]
fn an_unserved_pass_leaves_the_store() {
    let mut s = McStore::new();
    let ctx = pctx("git:proj", 0);
    s.replace_compartments("ses", &[comp(1, 1, 10, "m10", "S1")]).unwrap();
    let held = format!("{s:?}");
    let twice = vec![item("m10", 10, "raw"), item("m10", 11, "raw")];
    assert!(transform(&mut s, &req("ses", "cfg0", twice), &ctx).is_err());
    let absent = vec![item("m9", 9, "raw"), item("t11", 11, "tail")];
    assert!(transform(&mut s, &req("ses", "cfg0", absent), &ctx).is_err());
    assert_eq!(format!("{s:?}"), held);
}

#[test]
fn a_replay_extends_the_answer() {
    let mut s = McStore::new();
    s.replace_compartments("ses", &[comp(1, 1, 1, "a", "SUMMARY")]).unwrap();
    let short = vec![item("a", 1, "raw"), item("b", 2, "next")];
    let first = run(&mut s, &req("ses", "cfg0", short.clone()), &spine());
    let mut long = short;
    long.push(item("c", 3, "later"));
    let second = run(&mut s, &req("ses", "cfg0", long), &spine());
    assert_eq!((second.action.as_str(), second.committed), ("SOFT+", true));
    assert!(second.messages().starts_with(first.messages()));
    assert_eq!(second.messages().len(), first.messages().len() + 1);
}
