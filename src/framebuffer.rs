use vstd::prelude::*;

verus! {

/// A framebuffer attachment point.
#[derive(Clone, Copy, PartialEq, Eq, Structural, Hash, Debug)]
pub enum AttachmentType {
    Color(u32),
    Depth,
    Stencil,
    DepthStencil,
}

/// A render target on the device.
#[derive(Debug)]
pub struct Framebuffer {
    gl_handle: u32,
    allow_draw: bool,
    allow_read: bool,
}

/// The window's own framebuffer: handle 0, drawn to and not read.
pub fn window_framebuffer() -> (r: Framebuffer)
    ensures
        r.handle_spec() == 0,
        r.allows_draw_spec(),
        !r.allows_read_spec(),
{
    Framebuffer { gl_handle: 0, allow_draw: true, allow_read: false }
}

impl Framebuffer {
    pub closed spec fn handle_spec(&self) -> u32 {
        self.gl_handle
    }

    pub closed spec fn allows_draw_spec(&self) -> bool {
        self.allow_draw
    }

    pub closed spec fn allows_read_spec(&self) -> bool {
        self.allow_read
    }

    /// The framebuffer `gl_handle` with the given uses.
    pub fn from_handle(gl_handle: u32, allow_draw: bool, allow_read: bool) -> (r: Framebuffer)
        ensures
            r.handle_spec() == gl_handle,
            r.allows_draw_spec() == allow_draw,
            r.allows_read_spec() == allow_read,
    {
        Framebuffer { gl_handle, allow_draw, allow_read }
    }

    pub fn handle(&self) -> (r: u32)
        ensures
            r == self.handle_spec(),
    {
        self.gl_handle
    }

    pub fn allows_draw(&self) -> (r: bool)
        ensures
            r == self.allows_draw_spec(),
    {
        self.allow_draw
    }

    pub fn allows_read(&self) -> (r: bool)
        ensures
            r == self.allows_read_spec(),
    {
        self.allow_read
    }
}

} // verus!
