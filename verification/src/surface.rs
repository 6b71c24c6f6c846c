//! The native video surface's own state: the rectangle its window occupies, and what its render
//! loop shares with the rest of the player (a pending redraw, the client size, whether it is
//! still running). Creating the window and the GPU context, and the render loop itself, are
//! the platform's.
use vstd::prelude::*;

use crate::player::{at_least_one_i32, pack_size, unpack_size, EngineError};
use crate::text::push_str;

verus! {

/// What the render loop shares with the surface's owner.
#[derive(Debug)]
pub struct Shared {
    redraw: bool,
    size: u64,
    running: bool,
}

impl Shared {
    /// Whether a redraw is pending.
    pub closed spec fn redraw_pending(&self) -> bool {
        self.redraw
    }

    /// Whether the render loop should keep going.
    pub closed spec fn is_running(&self) -> bool {
        self.running
    }

    /// The client size as stored: `(width << 32) | height`, both halves kept together.
    pub closed spec fn packed_size(&self) -> u64 {
        self.size
    }

    /// The state of a surface just attached at `width` × `height`: running, with a first
    /// frame due.
    pub fn new(width: u32, height: u32) -> (s: Self)
        ensures
            s.redraw_pending(),
            s.is_running(),
            s.packed_size() == width as int * 0x1_0000_0000 + height as int,
    {
        Shared { redraw: true, size: pack_size(width, height), running: true }
    }

    /// Asks the render loop for a new frame.
    pub fn request_redraw(&mut self)
        ensures
            final(self).redraw_pending(),
            final(self).is_running() == old(self).is_running(),
            final(self).packed_size() == old(self).packed_size(),
    {
        self.redraw = true;
    }

    /// Whether a redraw is pending, as the render loop checks before drawing.
    pub fn redraw_requested(&self) -> (b: bool)
        ensures
            b == self.redraw_pending(),
    {
        self.redraw
    }

    /// Takes the pending redraw, leaving none: what the render loop does as it draws.
    pub fn take_redraw(&mut self) -> (b: bool)
        ensures
            b == old(self).redraw_pending(),
            !final(self).redraw_pending(),
            final(self).is_running() == old(self).is_running(),
            final(self).packed_size() == old(self).packed_size(),
    {
        let b = self.redraw;
        self.redraw = false;
        b
    }

    /// Records a new client size and asks for a frame at it.
    pub fn set_size(&mut self, width: u32, height: u32)
        ensures
            final(self).packed_size() == width as int * 0x1_0000_0000 + height as int,
            final(self).redraw_pending(),
            final(self).is_running() == old(self).is_running(),
    {
        self.size = pack_size(width, height);
        self.request_redraw();
    }

    /// The client size to render at, a side of 0 read as 1: the renderer rejects a zero-sized
    /// framebuffer, and a minimised window reports 0. A side past `i32::MAX` wraps, as the
    /// cast to the renderer's `i32` does.
    pub fn size(&self) -> (r: (i32, i32))
        ensures
            r.0 == at_least_one_i32((self.packed_size() / 0x1_0000_0000) as u32),
            r.1 == at_least_one_i32((self.packed_size() % 0x1_0000_0000) as u32),
    {
        unpack_size(self.size)
    }

    /// Tells the render loop to finish, waking it to see that.
    pub fn stop(&mut self)
        ensures
            !final(self).is_running(),
            final(self).redraw_pending(),
    {
        self.running = false;
        self.request_redraw();
    }

    /// Whether the render loop should keep going.
    pub fn running(&self) -> (b: bool)
        ensures
            b == self.is_running(),
    {
        self.running
    }
}

/// Where the surface's window sits, in physical pixels relative to the host window's client
/// area.
#[derive(Debug, Clone, Copy, PartialEq, Eq, Structural)]
pub struct Placement {
    pub x: i32,
    pub y: i32,
    pub width: i32,
    pub height: i32,
}

/// A native video surface: the host window handle it lives in, where its window sits, and the
/// state its render loop shares.
#[derive(Debug)]
pub struct VideoSurface {
    host: isize,
    placement: Placement,
    shared: Shared,
}

impl VideoSurface {
    /// The window placement last set.
    pub closed spec fn placed(&self) -> Placement {
        self.placement
    }

    /// The shared render state.
    pub closed spec fn render_state(&self) -> Shared {
        self.shared
    }

    /// The host window the surface lives in.
    pub closed spec fn host_window(&self) -> isize {
        self.host
    }

    /// A surface inside the host window `host`, at the host's origin with the given size.
    pub fn new(host: isize, width: u32, height: u32) -> (s: Self)
        ensures
            s.placed() == (Placement {
                x: 0,
                y: 0,
                width: at_least_one_i32(width),
                height: at_least_one_i32(height),
            }),
            s.render_state().redraw_pending(),
            s.render_state().is_running(),
            s.render_state().packed_size() == width as int * 0x1_0000_0000 + height as int,
            s.host_window() == host,
    {
        let w = if width == 0 {
            1u32
        } else {
            width
        };
        let h = if height == 0 {
            1u32
        } else {
            height
        };
        VideoSurface {
            host,
            placement: Placement { x: 0, y: 0, width: w as i32, height: h as i32 },
            shared: Shared::new(width, height),
        }
    }

    /// Places the surface at `(x, y)` with the given size. The window occupies exactly the
    /// stage rectangle the UI reports (at least 1 × 1), and the renderer is told the new size.
    pub fn set_rect(&mut self, x: i32, y: i32, width: u32, height: u32)
        ensures
            final(self).placed() == (Placement {
                x,
                y,
                width: at_least_one_i32(width),
                height: at_least_one_i32(height),
            }),
            final(self).render_state().packed_size() == width as int * 0x1_0000_0000 + height as int,
            final(self).render_state().redraw_pending(),
            final(self).render_state().is_running() == old(self).render_state().is_running(),
            final(self).host_window() == old(self).host_window(),
    {
        let w = if width == 0 {
            1u32
        } else {
            width
        };
        let h = if height == 0 {
            1u32
        } else {
            height
        };
        self.placement = Placement { x, y, width: w as i32, height: h as i32 };
        self.shared.set_size(width, height);
    }

    /// Where the window is to be placed.
    pub fn placement(&self) -> (p: Placement)
        ensures
            p == self.placed(),
    {
        self.placement
    }

    /// The host window handle.
    pub fn host(&self) -> (h: isize)
        ensures
            h == self.host_window(),
    {
        self.host
    }

    /// The shared render state, for the render loop.
    pub fn shared(&mut self) -> (s: &mut Shared)
        ensures
            *s == old(self).render_state(),
            final(self).render_state() == *final(s),
            final(self).placed() == old(self).placed(),
            final(self).host_window() == old(self).host_window(),
    {
        &mut self.shared
    }
}

/// Whether the render loop samples and logs the composition state on frame `frame`: only when
/// video diagnostics are switched on, about a second in (frame 40) and every 200 frames.
pub fn should_diagnose(diagnostics_on: bool, frame: u64) -> (b: bool)
    ensures
        b == (diagnostics_on && (frame == 40 || frame % 200 == 0)),
{
    diagnostics_on && (frame == 40 || frame % 200 == 0)
}

/// What a platform without a surface implementation says: plainly that video output is
/// missing, and what still works.
pub const NO_SURFACE_MESSAGE: &'static str = "video output is not implemented on this platform yet — audio plays, but the picture has nowhere to go. Windows is supported today; macOS and Linux are in progress.";

/// The error a platform without a surface implementation reports on attach.
pub fn no_surface() -> (e: EngineError)
    ensures
        e matches EngineError::Backend(m) && m@ == NO_SURFACE_MESSAGE@,
{
    let mut m = String::new();
    push_str(&mut m, NO_SURFACE_MESSAGE);
    EngineError::Backend(m)
}

} // verus!
