//! How the path tracer's GPU passes are wired together each frame: which
//! texture each pass reads and writes, the ping-pong choice made by the parity
//! of the frame counter, the à-trous step widths of the denoiser, and the
//! number of compute workgroups a pass dispatches.

use vstd::arithmetic::power2::{lemma2_to64, pow2};
use vstd::prelude::*;

verus! {

/// The textures the renderer allocates for one viewport.
#[derive(Clone, Copy, Debug, PartialEq, Eq, Structural)]
pub enum TextureSlot {
    CurrentRadiance,
    AccumulationA,
    AccumulationB,
    GBuffer,
    PrevGBuffer,
    DenoiseA,
    DenoiseB,
    Output,
}

/// Which of the two accumulation textures a frame writes.
#[derive(Clone, Copy, Debug, PartialEq, Eq, Structural)]
pub enum PingPong {
    A,
    B,
}

/// Even frames write accumulation texture A, odd frames texture B.
pub open spec fn spec_ping_pong_slot(frame_index: u32) -> PingPong {
    if frame_index % 2 == 0 {
        PingPong::A
    } else {
        PingPong::B
    }
}

/// The ping-pong slot of frame `frame_index`.
pub fn ping_pong_slot(frame_index: u32) -> (slot: PingPong)
    ensures
        slot == spec_ping_pong_slot(frame_index),
{
    if frame_index % 2 == 0 {
        PingPong::A
    } else {
        PingPong::B
    }
}

/// The accumulation texture that a slot writes.
pub open spec fn spec_accumulation_target(slot: PingPong) -> TextureSlot {
    match slot {
        PingPong::A => TextureSlot::AccumulationA,
        PingPong::B => TextureSlot::AccumulationB,
    }
}

/// The accumulation texture written by frame `frame_index`.
pub fn accumulation_target(frame_index: u32) -> (target: TextureSlot)
    ensures
        target == spec_accumulation_target(spec_ping_pong_slot(frame_index)),
{
    match ping_pong_slot(frame_index) {
        PingPong::A => TextureSlot::AccumulationA,
        PingPong::B => TextureSlot::AccumulationB,
    }
}

/// The textures the path-tracing pass writes: the fresh radiance of the frame
/// and the frame's G-buffer (normals and depth).
#[derive(Clone, Copy, Debug, PartialEq, Eq, Structural)]
pub struct PathTraceWiring {
    pub radiance: TextureSlot,
    pub gbuffer: TextureSlot,
}

/// The path tracer writes the current radiance texture and the G-buffer.
pub open spec fn spec_path_trace_wiring() -> PathTraceWiring {
    PathTraceWiring { radiance: TextureSlot::CurrentRadiance, gbuffer: TextureSlot::GBuffer }
}

/// The storage textures bound to the path-tracing pass.
pub fn path_trace_wiring() -> (wiring: PathTraceWiring)
    ensures
        wiring == spec_path_trace_wiring(),
        wiring.radiance == TextureSlot::CurrentRadiance,
        wiring.gbuffer == TextureSlot::GBuffer,
{
    PathTraceWiring { radiance: TextureSlot::CurrentRadiance, gbuffer: TextureSlot::GBuffer }
}

/// A texture-to-texture copy recorded in the frame's command stream.
#[derive(Clone, Copy, Debug, PartialEq, Eq, Structural)]
pub struct TextureCopy {
    pub source: TextureSlot,
    pub destination: TextureSlot,
}

/// After the temporal pass, the frame's G-buffer is copied into the previous
/// G-buffer, which the next frame reprojects against.
pub open spec fn spec_gbuffer_history_copy() -> TextureCopy {
    TextureCopy { source: TextureSlot::GBuffer, destination: TextureSlot::PrevGBuffer }
}

/// The copy that keeps this frame's G-buffer for the next frame.
pub fn gbuffer_history_copy() -> (copy: TextureCopy)
    ensures
        copy == spec_gbuffer_history_copy(),
        copy.source == TextureSlot::GBuffer,
        copy.destination == TextureSlot::PrevGBuffer,
{
    TextureCopy { source: TextureSlot::GBuffer, destination: TextureSlot::PrevGBuffer }
}

/// Bindings of the temporal accumulation pass: it blends the fresh radiance
/// with the history texture and writes the new history to `output`.
#[derive(Clone, Copy, Debug, PartialEq, Eq, Structural)]
pub struct TemporalWiring {
    pub radiance: TextureSlot,
    pub history: TextureSlot,
    pub gbuffer: TextureSlot,
    pub prev_gbuffer: TextureSlot,
    pub output: TextureSlot,
}

/// Slot A reads the history from accumulation B and writes accumulation A;
/// slot B the other way round.
pub open spec fn spec_temporal_wiring(slot: PingPong) -> TemporalWiring {
    match slot {
        PingPong::A => TemporalWiring {
            radiance: TextureSlot::CurrentRadiance,
            history: TextureSlot::AccumulationB,
            gbuffer: TextureSlot::GBuffer,
            prev_gbuffer: TextureSlot::PrevGBuffer,
            output: TextureSlot::AccumulationA,
        },
        PingPong::B => TemporalWiring {
            radiance: TextureSlot::CurrentRadiance,
            history: TextureSlot::AccumulationA,
            gbuffer: TextureSlot::GBuffer,
            prev_gbuffer: TextureSlot::PrevGBuffer,
            output: TextureSlot::AccumulationB,
        },
    }
}

/// The bindings of the temporal pass for a slot.
pub fn temporal_wiring(slot: PingPong) -> (wiring: TemporalWiring)
    ensures
        wiring == spec_temporal_wiring(slot),
        wiring.radiance == TextureSlot::CurrentRadiance,
        wiring.gbuffer == TextureSlot::GBuffer,
        wiring.prev_gbuffer == TextureSlot::PrevGBuffer,
        wiring.output == spec_accumulation_target(slot),
        wiring.history != wiring.output,
        wiring.history == TextureSlot::AccumulationA || wiring.history == TextureSlot::AccumulationB,
{
    match slot {
        PingPong::A => TemporalWiring {
            radiance: TextureSlot::CurrentRadiance,
            history: TextureSlot::AccumulationB,
            gbuffer: TextureSlot::GBuffer,
            prev_gbuffer: TextureSlot::PrevGBuffer,
            output: TextureSlot::AccumulationA,
        },
        PingPong::B => TemporalWiring {
            radiance: TextureSlot::CurrentRadiance,
            history: TextureSlot::AccumulationA,
            gbuffer: TextureSlot::GBuffer,
            prev_gbuffer: TextureSlot::PrevGBuffer,
            output: TextureSlot::AccumulationB,
        },
    }
}

/// Bindings of one à-trous denoising pass: it filters `input`, guided by the
/// G-buffer, into `output`, with the step width of parameter block `params`.
#[derive(Clone, Copy, Debug, PartialEq, Eq, Structural)]
pub struct DenoiseStage {
    pub input: TextureSlot,
    pub gbuffer: TextureSlot,
    pub output: TextureSlot,
    pub params: usize,
}

/// The number of à-trous passes run each frame.
pub const DENOISE_PASSES: usize = 4;

/// The fixed chain of denoise bind groups, by position: the first filters
/// accumulation A into denoise A, then the passes alternate between the two
/// denoise textures, pass `i` using parameter block `i`.
pub open spec fn spec_denoise_chain_stage(i: int) -> DenoiseStage {
    if i == 0 {
        DenoiseStage { input: TextureSlot::AccumulationA, gbuffer: TextureSlot::GBuffer, output: TextureSlot::DenoiseA, params: 0 }
    } else if i == 1 {
        DenoiseStage { input: TextureSlot::DenoiseA, gbuffer: TextureSlot::GBuffer, output: TextureSlot::DenoiseB, params: 1 }
    } else if i == 2 {
        DenoiseStage { input: TextureSlot::DenoiseB, gbuffer: TextureSlot::GBuffer, output: TextureSlot::DenoiseA, params: 2 }
    } else {
        DenoiseStage { input: TextureSlot::DenoiseA, gbuffer: TextureSlot::GBuffer, output: TextureSlot::DenoiseB, params: 3 }
    }
}

/// The denoise bind group at position `i` of the chain.
pub fn denoise_chain_stage(i: usize) -> (stage: DenoiseStage)
    requires
        i < DENOISE_PASSES,
    ensures
        stage == spec_denoise_chain_stage(i as int),
        stage.gbuffer == TextureSlot::GBuffer,
        stage.params == i,
{
    if i == 0 {
        DenoiseStage { input: TextureSlot::AccumulationA, gbuffer: TextureSlot::GBuffer, output: TextureSlot::DenoiseA, params: 0 }
    } else if i == 1 {
        DenoiseStage { input: TextureSlot::DenoiseA, gbuffer: TextureSlot::GBuffer, output: TextureSlot::DenoiseB, params: 1 }
    } else if i == 2 {
        DenoiseStage { input: TextureSlot::DenoiseB, gbuffer: TextureSlot::GBuffer, output: TextureSlot::DenoiseA, params: 2 }
    } else {
        DenoiseStage { input: TextureSlot::DenoiseA, gbuffer: TextureSlot::GBuffer, output: TextureSlot::DenoiseB, params: 3 }
    }
}

/// The first denoise pass of a frame filters the accumulation texture that
/// the frame's slot wrote into denoise A, with parameter block 0.
pub open spec fn spec_denoise_entry_stage(slot: PingPong) -> DenoiseStage {
    DenoiseStage {
        input: spec_accumulation_target(slot),
        gbuffer: TextureSlot::GBuffer,
        output: TextureSlot::DenoiseA,
        params: 0,
    }
}

/// The first denoise pass for a slot.
pub fn denoise_entry_stage(slot: PingPong) -> (stage: DenoiseStage)
    ensures
        stage == spec_denoise_entry_stage(slot),
        stage.gbuffer == TextureSlot::GBuffer,
        stage.input == spec_accumulation_target(slot),
{
    let input = match slot {
        PingPong::A => TextureSlot::AccumulationA,
        PingPong::B => TextureSlot::AccumulationB,
    };
    DenoiseStage { input, gbuffer: TextureSlot::GBuffer, output: TextureSlot::DenoiseA, params: 0 }
}

/// Pass `iter` of a frame in slot `slot`: the entry stage first, then the
/// chain stages at positions 1, 2 and 3.
pub open spec fn spec_denoise_pass(iter: int, slot: PingPong) -> DenoiseStage {
    if iter == 0 {
        spec_denoise_entry_stage(slot)
    } else {
        spec_denoise_chain_stage(iter)
    }
}

/// The bindings used by denoise pass `iter` of frame `frame_index`.
pub fn denoise_pass(iter: usize, frame_index: u32) -> (stage: DenoiseStage)
    requires
        iter < DENOISE_PASSES,
    ensures
        stage == spec_denoise_pass(iter as int, spec_ping_pong_slot(frame_index)),
        stage.gbuffer == TextureSlot::GBuffer,
        stage.params == iter,
{
    if iter == 0 {
        denoise_entry_stage(ping_pong_slot(frame_index))
    } else {
        denoise_chain_stage(iter)
    }
}

/// Bindings of the upscale pass: it reads the denoised image and writes the
/// full-resolution output.
#[derive(Clone, Copy, Debug, PartialEq, Eq, Structural)]
pub struct UpscaleWiring {
    pub input: TextureSlot,
    pub output: TextureSlot,
}

/// The upscale pass reads denoise B and writes the output texture.
pub open spec fn spec_upscale_wiring() -> UpscaleWiring {
    UpscaleWiring { input: TextureSlot::DenoiseB, output: TextureSlot::Output }
}

/// The bindings of the upscale pass.
pub fn upscale_wiring() -> (wiring: UpscaleWiring)
    ensures
        wiring == spec_upscale_wiring(),
{
    UpscaleWiring { input: TextureSlot::DenoiseB, output: TextureSlot::Output }
}

/// The texture the presentation blit samples: the renderer is created with
/// the blit reading the last denoise output (denoise B), and every applied
/// resize rebinds it to the upscaled output texture.
pub open spec fn spec_blit_source(resized: bool) -> TextureSlot {
    if resized {
        TextureSlot::Output
    } else {
        TextureSlot::DenoiseB
    }
}

/// The texture the presentation blit samples, before any resize
/// (`resized == false`) or after one.
pub fn blit_source(resized: bool) -> (source: TextureSlot)
    ensures
        source == spec_blit_source(resized),
{
    if resized {
        TextureSlot::Output
    } else {
        TextureSlot::DenoiseB
    }
}

/// The uniform block of one à-trous pass, laid out as the shader reads it.
#[derive(Clone, Copy, Debug, PartialEq, Eq, Structural)]
pub struct DenoiseParams {
    pub step_width: i32,
    pub pad1: i32,
    pub pad2: i32,
    pub pad3: i32,
}

/// The step width of parameter block `i`: the à-trous holes double each pass.
pub open spec fn atrous_step_width(i: nat) -> int {
    pow2(i) as int
}

/// Parameter block `i`: step width 2^i, zero padding.
pub open spec fn spec_denoise_param_block(i: nat) -> DenoiseParams {
    DenoiseParams { step_width: atrous_step_width(i) as i32, pad1: 0, pad2: 0, pad3: 0 }
}

/// The parameter blocks of the denoise passes: block `i` has step width
/// 2^i and zero padding.
pub fn denoise_param_blocks() -> (blocks: Vec<DenoiseParams>)
    ensures
        blocks@.len() == DENOISE_PASSES,
        forall|i: int|
            0 <= i < DENOISE_PASSES ==> #[trigger] blocks@[i] == spec_denoise_param_block(i as nat),
{
    proof {
        lemma2_to64();
    }
    let steps: [i32; 4] = [1, 2, 4, 8];
    let mut blocks: Vec<DenoiseParams> = Vec::new();
    let mut i: usize = 0;
    while i < 4
        invariant
            i <= 4,
            blocks@.len() == i,
            steps@ == seq![1i32, 2, 4, 8],
            pow2(0) == 1 && pow2(1) == 2 && pow2(2) == 4 && pow2(3) == 8,
            forall|j: int|
                0 <= j < i ==> #[trigger] blocks@[j] == spec_denoise_param_block(j as nat),
        decreases 4 - i,
    {
        blocks.push(DenoiseParams { step_width: steps[i], pad1: 0, pad2: 0, pad3: 0 });
        i = i + 1;
    }
    blocks
}

/// The number of workgroups of eight threads that cover `extent` pixels along
/// one axis.
pub fn workgroup_count(extent: u32) -> (groups: u32)
    requires
        extent <= u32::MAX - 7,
    ensures
        groups == (extent + 7) / 8,
        groups * 8 >= extent,
        extent == 0 || (groups - 1) * 8 < extent,
{
    (extent + 7) / 8
}

/// Within one frame, the first denoise pass reads the accumulation texture
/// that the temporal pass of the same frame has just written.
pub proof fn lemma_denoise_reads_temporal_output(frame_index: u32)
    ensures
        spec_denoise_pass(0, spec_ping_pong_slot(frame_index)).input
            == spec_temporal_wiring(spec_ping_pong_slot(frame_index)).output,
        spec_temporal_wiring(spec_ping_pong_slot(frame_index)).output
            == spec_accumulation_target(spec_ping_pong_slot(frame_index)),
{
}

/// Each denoise pass after the first reads what the pass before it wrote,
/// and no pass writes the texture it reads.
pub proof fn lemma_denoise_chain_connected(slot: PingPong, iter: int)
    requires
        0 <= iter < DENOISE_PASSES,
    ensures
        iter > 0 ==> spec_denoise_pass(iter, slot).input == spec_denoise_pass(iter - 1, slot).output,
        spec_denoise_pass(iter, slot).input != spec_denoise_pass(iter, slot).output,
{
}

/// Before any resize the blit shows the last denoise output; after a resize it
/// shows what the upscale pass wrote.
pub proof fn lemma_blit_reads_pass_output(slot: PingPong)
    ensures
        spec_blit_source(false) == spec_denoise_pass(DENOISE_PASSES - 1, slot).output,
        spec_blit_source(true) == spec_upscale_wiring().output,
{
}

/// The upscale pass reads what the last denoise pass wrote.
pub proof fn lemma_upscale_reads_last_denoise(slot: PingPong)
    ensures
        spec_upscale_wiring().input == spec_denoise_pass(DENOISE_PASSES - 1, slot).output,
{
}

/// Denoise pass `i` uses parameter block `i`, so the step width doubles from
/// one pass to the next.
pub proof fn lemma_denoise_pass_step_widths(slot: PingPong, iter: int)
    requires
        0 <= iter < DENOISE_PASSES,
    ensures
        spec_denoise_pass(iter, slot).params == iter,
        iter > 0 ==> atrous_step_width(iter as nat) == 2 * atrous_step_width((iter - 1) as nat),
{
    lemma2_to64();
}

/// Consecutive frames alternate slots: the temporal pass of a frame reads as
/// history what the temporal pass of the frame before wrote, and never
/// writes the texture it reads.
pub proof fn lemma_temporal_history_alternates(frame_index: u32)
    requires
        frame_index < u32::MAX,
    ensures
        spec_temporal_wiring(spec_ping_pong_slot((frame_index + 1) as u32)).history
            == spec_temporal_wiring(spec_ping_pong_slot(frame_index)).output,
        spec_temporal_wiring(spec_ping_pong_slot(frame_index)).history
            != spec_temporal_wiring(spec_ping_pong_slot(frame_index)).output,
{
}

/// In every frame, whichever slot it uses, the temporal pass reads the
/// radiance and the G-buffer that the path tracer of the same frame has just
/// written, and as previous G-buffer the copy that the frame before kept of
/// its own G-buffer: two distinct textures, never swapped.
pub proof fn lemma_temporal_reads_current_and_kept_gbuffer(slot: PingPong)
    ensures
        spec_temporal_wiring(slot).radiance == spec_path_trace_wiring().radiance,
        spec_temporal_wiring(slot).gbuffer == spec_path_trace_wiring().gbuffer,
        spec_temporal_wiring(slot).gbuffer == TextureSlot::GBuffer,
        spec_gbuffer_history_copy().source == spec_path_trace_wiring().gbuffer,
        spec_temporal_wiring(slot).prev_gbuffer == spec_gbuffer_history_copy().destination,
        spec_temporal_wiring(slot).prev_gbuffer == TextureSlot::PrevGBuffer,
        spec_temporal_wiring(slot).gbuffer != spec_temporal_wiring(slot).prev_gbuffer,
{
}

/// Every denoise pass of every frame is guided by the G-buffer that the path
/// tracer of the same frame wrote, never by the previous frame's copy.
pub proof fn lemma_denoise_guided_by_current_gbuffer(slot: PingPong, iter: int)
    requires
        0 <= iter < DENOISE_PASSES,
    ensures
        spec_denoise_pass(iter, slot).gbuffer == spec_path_trace_wiring().gbuffer,
        spec_denoise_pass(iter, slot).gbuffer == TextureSlot::GBuffer,
        spec_denoise_pass(iter, slot).gbuffer != spec_gbuffer_history_copy().destination,
{
}

} // verus!
