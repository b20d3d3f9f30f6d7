//! The state of the display.

use crate::keys::Keypress;
use crate::pool::{empty_buffer, pool_wf, PoolBuffer};
use vstd::prelude::*;

verus! {

/// How the colors of a pixel lie on an output.
#[derive(Debug, Clone, Copy, PartialEq, Eq, Structural)]
pub enum Subpixel {
    Unknown,
    NoGeometry,
    HorizontalRgb,
    HorizontalBgr,
    VerticalRgb,
    VerticalBgr,
}

/// An output of the compositor.
#[derive(Debug, Clone, PartialEq, Eq)]
pub struct Output {
    pub scale: i32,
    pub subpixel: Subpixel,
    /// The name of its connector, once it is known.
    pub name: Option<String>,
}

/// The state of the display.
pub struct AppState {
    // Appearance
    pub foreground: u32,
    pub background: u32,
    pub specialfg: u32,
    pub font: String,
    /// After how many seconds without a key the keys are cleared.
    pub timeout: i64,
    // Which of the compositor's objects there are
    pub compositor: bool,
    pub shm: bool,
    pub seat: bool,
    pub layer_shell: bool,
    pub surface: bool,
    pub layer_surface: bool,
    /// The size that the compositor last confirmed; zero where the surface is not mapped.
    pub width: u32,
    pub height: u32,
    pub frame_scheduled: bool,
    pub dirty: bool,
    pub buffers: [PoolBuffer; 2],
    /// Which of the outputs the surface is on.
    pub current_output: Option<usize>,
    /// The outputs, in the order in which they were announced; each is known by its place.
    pub outputs: Vec<Output>,
    /// Whether there is something to compile a keymap with.
    pub xkb_context: bool,
    /// Whether there is a keymap, and a keyboard state for it.
    pub xkb_state: bool,
    pub keys: Vec<Keypress>,
    /// When a key last changed, in seconds of the monotonic clock.
    pub last_key: i64,
    pub run: bool,
    /// The edges that the surface is anchored to, one bit each.
    pub anchor: u32,
    pub margin: i32,
    /// The gap in pixels between two keys.
    pub padding: u32,
    /// The name of the output that was asked for.
    pub output_name: Option<String>,
}

impl AppState {
    /// The buffers are well-formed, the current output is one of the outputs, and the anchor holds
    /// no other bits than those of the four edges.
    pub open spec fn wf(self) -> bool {
        &&& pool_wf(self.buffers@)
        &&& self.current_output matches Some(i) ==> i < self.outputs@.len()
        &&& self.anchor < 16
    }

    /// The state before the command line is read.
    pub fn new() -> (r: Self)
        ensures
            r.foreground == 0xffff_ffff,
            r.background == 0x0000_00cc,
            r.specialfg == 0xaaaa_aaff,
            r.font@ == "monospace 24"@,
            r.timeout == 1,
            !r.compositor && !r.shm && !r.seat && !r.layer_shell,
            !r.surface && !r.layer_surface,
            r.width == 0 && r.height == 0,
            !r.frame_scheduled && !r.dirty,
            r.buffers@ == seq![empty_buffer(), empty_buffer()],
            r.current_output is None,
            r.outputs@ == Seq::<Output>::empty(),
            !r.xkb_context && !r.xkb_state,
            r.keys@ == Seq::<Keypress>::empty(),
            r.last_key == 0,
            r.run,
            r.anchor == 0,
            r.margin == 32,
            r.padding == 5,
            r.output_name is None,
            r.wf(),
    {
        let buffers: [PoolBuffer; 2] = [PoolBuffer::new(), PoolBuffer::new()];
        assert(buffers@ =~= seq![empty_buffer(), empty_buffer()]);
        AppState {
            foreground: 0xffff_ffff,
            background: 0x0000_00cc,
            specialfg: 0xaaaa_aaff,
            font: "monospace 24".to_owned(),
            timeout: 1,
            compositor: false,
            shm: false,
            seat: false,
            layer_shell: false,
            surface: false,
            layer_surface: false,
            width: 0,
            height: 0,
            frame_scheduled: false,
            dirty: false,
            buffers,
            current_output: None,
            outputs: Vec::new(),
            xkb_context: false,
            xkb_state: false,
            keys: Vec::new(),
            last_key: 0,
            run: true,
            anchor: 0,
            margin: 32,
            padding: 5,
            output_name: None,
        }
    }
}

} // verus!
