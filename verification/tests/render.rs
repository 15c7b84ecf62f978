use std::collections::VecDeque;
use vanguard::frame::{push_windowed, FrameState, DEFAULT_HEIGHT, DEFAULT_WIDTH, FRAME_TIME_WINDOW};
use vanguard::render_graph::{
    accumulation_target, blit_source, denoise_chain_stage, denoise_entry_stage, denoise_param_blocks, denoise_pass,
    ping_pong_slot, temporal_wiring, upscale_wiring, workgroup_count, DenoiseParams, PingPong, TextureSlot,
    DENOISE_PASSES,
};
use vanguard::screenshot::{screenshot_layout, strip_row_padding};

#[test]
fn ping_pong_follows_frame_parity() {
    assert_eq!(ping_pong_slot(0), PingPong::A);
    assert_eq!(ping_pong_slot(1), PingPong::B);
    assert_eq!(ping_pong_slot(2), PingPong::A);
    assert_eq!(ping_pong_slot(u32::MAX), PingPong::B);
    assert_eq!(accumulation_target(6), TextureSlot::AccumulationA);
    assert_eq!(accumulation_target(7), TextureSlot::AccumulationB);
}

#[test]
fn temporal_history_is_previous_output() {
    for frame in 0u32..10 {
        let this = temporal_wiring(ping_pong_slot(frame));
        let next = temporal_wiring(ping_pong_slot(frame + 1));
        assert_eq!(next.history, this.output);
        assert_ne!(this.history, this.output);
        assert_eq!(this.output, accumulation_target(frame));
        assert_eq!(this.radiance, TextureSlot::CurrentRadiance);
    }
}

#[test]
fn denoise_passes_form_a_chain_ending_at_upscale() {
    for frame in [0u32, 1] {
        let temporal = temporal_wiring(ping_pong_slot(frame));
        let first = denoise_pass(0, frame);
        assert_eq!(first.input, temporal.output);
        for iter in 1..DENOISE_PASSES {
            assert_eq!(denoise_pass(iter, frame).input, denoise_pass(iter - 1, frame).output);
            assert_eq!(denoise_pass(iter, frame).params, iter);
        }
        assert_eq!(denoise_pass(DENOISE_PASSES - 1, frame).output, upscale_wiring().input);
    }
    assert_eq!(upscale_wiring().output, TextureSlot::Output);
}

#[test]
fn denoise_entry_and_chain_tables() {
    let a = denoise_entry_stage(PingPong::A);
    let b = denoise_entry_stage(PingPong::B);
    assert_eq!((a.input, a.output, a.params), (TextureSlot::AccumulationA, TextureSlot::DenoiseA, 0));
    assert_eq!((b.input, b.output, b.params), (TextureSlot::AccumulationB, TextureSlot::DenoiseA, 0));
    assert_eq!(denoise_chain_stage(0), a);
    let c2 = denoise_chain_stage(2);
    assert_eq!((c2.input, c2.output, c2.params), (TextureSlot::DenoiseB, TextureSlot::DenoiseA, 2));
    assert_eq!(denoise_pass(0, 3), b);
    assert_eq!(denoise_pass(1, 3), denoise_chain_stage(1));
}

#[test]
fn denoise_step_widths_double() {
    let blocks = denoise_param_blocks();
    let widths: Vec<i32> = blocks.iter().map(|b| b.step_width).collect();
    assert_eq!(widths, vec![1, 2, 4, 8]);
    assert_eq!(blocks[3], DenoiseParams { step_width: 8, pad1: 0, pad2: 0, pad3: 0 });
}

#[test]
fn workgroups_cover_the_extent() {
    assert_eq!(workgroup_count(0), 0);
    assert_eq!(workgroup_count(1), 1);
    assert_eq!(workgroup_count(8), 1);
    assert_eq!(workgroup_count(9), 2);
    assert_eq!(workgroup_count(1920), 240);
    assert_eq!(workgroup_count(1081), 136);
    assert_eq!(workgroup_count(u32::MAX - 7), 536870911);
}

#[test]
fn frame_state_initial_extent() {
    let s = FrameState::new(None);
    assert_eq!((s.width, s.height, s.frame_index), (DEFAULT_WIDTH, DEFAULT_HEIGHT, 0));
    let s = FrameState::new(Some((0, 720)));
    assert_eq!((s.width, s.height), (1, 720));
    let s = FrameState::new(Some((2560, 1440)));
    assert_eq!((s.width, s.height), (2560, 1440));
}

#[test]
fn resize_restarts_accumulation_only_when_applied() {
    let mut s = FrameState::new(None);
    s.finish_frame();
    s.finish_frame();
    assert_eq!(s.frame_index, 2);
    assert!(!s.resize(0, 100));
    assert_eq!(s, FrameState { width: 1920, height: 1080, frame_index: 2 });
    assert!(!s.resize(100, 0));
    assert!(s.resize(800, 600));
    assert_eq!(s, FrameState { width: 800, height: 600, frame_index: 0 });
    assert_eq!(ping_pong_slot(s.frame_index), PingPong::A);
    s.finish_frame();
    s.reset_accumulation();
    assert_eq!(s, FrameState { width: 800, height: 600, frame_index: 0 });
}

#[test]
fn screenshot_layout_pads_rows_to_alignment() {
    let l = screenshot_layout(1920, 1080, 256);
    assert_eq!(l.unpadded_bytes_per_row, 7680);
    assert_eq!(l.padded_bytes_per_row, 7680);
    assert_eq!(l.buffer_size, 7680 * 1080);
    let l = screenshot_layout(100, 3, 256);
    assert_eq!(l.unpadded_bytes_per_row, 400);
    assert_eq!(l.padded_bytes_per_row, 512);
    assert_eq!(l.buffer_size, 1536);
    let l = screenshot_layout(0, 5, 256);
    assert_eq!((l.unpadded_bytes_per_row, l.padded_bytes_per_row, l.buffer_size), (0, 0, 0));
    let l = screenshot_layout(65, 1, 256);
    assert_eq!(l.padded_bytes_per_row, 512);
}

#[test]
fn strip_row_padding_drops_the_padding() {
    // two rows of one pixel each, rows padded to 8 bytes
    let data: Vec<u8> = vec![1, 2, 3, 4, 90, 91, 92, 93, 5, 6, 7, 8, 94, 95, 96, 97];
    assert_eq!(strip_row_padding(&data, 1, 2, 8), vec![1, 2, 3, 4, 5, 6, 7, 8]);
    // the last row may end right after its visible bytes
    assert_eq!(strip_row_padding(&data[..12], 1, 2, 8), vec![1, 2, 3, 4, 5, 6, 7, 8]);
    assert!(strip_row_padding(&data, 1, 0, 8).is_empty());
    assert_eq!(strip_row_padding(&data, 2, 2, 8), data);
}

#[test]
fn strip_row_padding_matches_layout() {
    let width = 3u32;
    let height = 4u32;
    let layout = screenshot_layout(width, height, 16);
    assert_eq!(layout.padded_bytes_per_row, 16);
    let data: Vec<u8> = (0..layout.buffer_size as usize).map(|i| i as u8).collect();
    let pixels = strip_row_padding(&data, width, height, layout.padded_bytes_per_row);
    assert_eq!(pixels.len(), (4 * width * height) as usize);
    for r in 0..height as usize {
        for k in 0..(4 * width) as usize {
            assert_eq!(pixels[r * 12 + k], data[r * 16 + k]);
        }
    }
}

#[test]
fn blit_shows_denoised_then_upscaled_image() {
    assert_eq!(blit_source(false), TextureSlot::DenoiseB);
    assert_eq!(blit_source(false), denoise_pass(DENOISE_PASSES - 1, 0).output);
    assert_eq!(blit_source(true), TextureSlot::Output);
    assert_eq!(blit_source(true), upscale_wiring().output);
}

#[test]
fn frame_time_window_keeps_the_latest_entries() {
    let mut window: VecDeque<u32> = VecDeque::new();
    for i in 0..3 {
        push_windowed(&mut window, i, 3);
    }
    assert_eq!(window, VecDeque::from(vec![0, 1, 2]));
    push_windowed(&mut window, 3, 3);
    assert_eq!(window, VecDeque::from(vec![1, 2, 3]));
    let mut big: VecDeque<u32> = VecDeque::new();
    for i in 0..2500u32 {
        push_windowed(&mut big, i, FRAME_TIME_WINDOW);
        assert!(big.len() <= FRAME_TIME_WINDOW);
    }
    assert_eq!(big.len(), 1000);
    assert_eq!(big.front(), Some(&1500));
    assert_eq!(big.back(), Some(&2499));
    let mut none: VecDeque<u32> = VecDeque::new();
    push_windowed(&mut none, 7, 0);
    assert!(none.is_empty());
}
