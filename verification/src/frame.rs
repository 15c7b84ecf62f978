//! Frame bookkeeping of the renderer: the viewport extent and the progressive
//! accumulation counter, which restarts whenever the picture would change.

use crate::render_graph::{spec_ping_pong_slot, PingPong};
use std::collections::VecDeque;
use vstd::prelude::*;

verus! {

/// Extent used when the renderer has no window to take its size from.
pub const DEFAULT_WIDTH: u32 = 1920;

/// See `DEFAULT_WIDTH`.
pub const DEFAULT_HEIGHT: u32 = 1080;

/// The viewport extent and the number of frames accumulated since the last
/// restart.
#[derive(Clone, Copy, Debug, PartialEq, Eq, Structural)]
pub struct FrameState {
    pub width: u32,
    pub height: u32,
    pub frame_index: u32,
}

/// The extent a renderer starts with: the window's inner size with each side
/// at least one pixel, or the default extent without a window.
pub open spec fn spec_initial_extent(window_size: Option<(u32, u32)>) -> (u32, u32) {
    match window_size {
        Some((w, h)) => (if w >= 1 { w } else { 1 }, if h >= 1 { h } else { 1 }),
        None => (DEFAULT_WIDTH, DEFAULT_HEIGHT),
    }
}

impl FrameState {
    /// The state of a fresh renderer: the initial extent (see
    /// `spec_initial_extent`) and no frame accumulated.
    pub fn new(window_size: Option<(u32, u32)>) -> (state: FrameState)
        ensures
            (state.width, state.height) == spec_initial_extent(window_size),
            state.frame_index == 0,
    {
        let (width, height): (u32, u32) = match window_size {
            Some((w, h)) => (if w >= 1 { w } else { 1 }, if h >= 1 { h } else { 1 }),
            None => (DEFAULT_WIDTH, DEFAULT_HEIGHT),
        };
        FrameState { width, height, frame_index: 0 }
    }

    /// Applies a new window size. A size with a zero side is ignored;
    /// otherwise the extent becomes the new size and accumulation restarts.
    /// Returns whether the size was applied, that is whether the viewport
    /// textures have to be recreated.
    pub fn resize(&mut self, width: u32, height: u32) -> (applied: bool)
        ensures
            applied == (width > 0 && height > 0),
            applied ==> *final(self) == (FrameState { width, height, frame_index: 0 }),
            !applied ==> *final(self) == *old(self),
    {
        if width > 0 && height > 0 {
            self.width = width;
            self.height = height;
            self.frame_index = 0;
            true
        } else {
            false
        }
    }

    /// Restarts accumulation without touching the extent.
    pub fn reset_accumulation(&mut self)
        ensures
            final(self).frame_index == 0,
            final(self).width == old(self).width,
            final(self).height == old(self).height,
    {
        self.frame_index = 0;
    }

    /// Counts one more accumulated frame.
    pub fn finish_frame(&mut self)
        requires
            old(self).frame_index < u32::MAX,
        ensures
            final(self).frame_index == old(self).frame_index + 1,
            final(self).width == old(self).width,
            final(self).height == old(self).height,
    {
        self.frame_index = self.frame_index + 1;
    }
}

/// How many of the latest frame times the diagnostics overlay keeps.
pub const FRAME_TIME_WINDOW: usize = 1000;

/// The window after `item` is appended to `window`: when the window then
/// holds more than `capacity` entries, its oldest entry is dropped.
pub open spec fn spec_windowed<T>(window: Seq<T>, item: T, capacity: nat) -> Seq<T> {
    if window.len() + 1 > capacity {
        window.push(item).drop_first()
    } else {
        window.push(item)
    }
}

/// Appends `item` to a sliding window of recent values and drops the oldest
/// one when the window would exceed `capacity` entries.
pub fn push_windowed<T>(window: &mut VecDeque<T>, item: T, capacity: usize)
    ensures
        final(window)@ == spec_windowed(old(window)@, item, capacity as nat),
{
    window.push_back(item);
    if window.len() > capacity {
        let _ = window.pop_front();
    }
}

/// A window that starts within its capacity stays within it, and (for a
/// positive capacity) ends with the value just appended.
pub proof fn lemma_window_bounded<T>(window: Seq<T>, item: T, capacity: nat)
    requires
        window.len() <= capacity,
    ensures
        spec_windowed(window, item, capacity).len() <= capacity,
        capacity > 0 ==> spec_windowed(window, item, capacity).last() == item,
        window.len() < capacity ==> spec_windowed(window, item, capacity) == window.push(item),
{
}

/// After a restart of accumulation (a fresh renderer, an applied resize or a
/// reset) the next frame writes accumulation texture A.
pub proof fn lemma_restart_writes_slot_a(state: FrameState)
    requires
        state.frame_index == 0,
    ensures
        spec_ping_pong_slot(state.frame_index) == PingPong::A,
{
}

} // verus!
