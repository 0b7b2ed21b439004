//! The render context: an explicit stand-in for the graphics API's global
//! state. Resource creation hands out handles, binds update the context's
//! fields, and every effect is recorded as a command, in order, for the
//! backend that owns the real graphics context to carry out.

use vstd::prelude::*;
use crate::glu::{TexSpec, TexSpecView};

verus! {

/// One effect on the graphics API, in terms of the handles that the context
/// handed out. Handle 0 is the window's default framebuffer.
#[derive(Debug, PartialEq)]
pub enum GlCmd {
    CreateTexture { id: u32, spec: TexSpec },
    DeleteTexture { id: u32 },
    BindTexture { unit: u32, id: u32 },
    CreateFramebuffer { id: u32 },
    FramebufferTexture { fbo: u32, attachment: u32, tex: u32 },
    BindFramebuffer { id: u32 },
    DrawBuffers { fbo: u32, attachments: Vec<u32> },
    ReadBuffer { fbo: u32, attachment: u32 },
    Blit {
        src: u32,
        dst: u32,
        src_width: i32,
        src_height: i32,
        dst_width: i32,
        dst_height: i32,
        mask: u32,
        filter: u32,
    },
    CreateProgram { id: u32 },
    UseProgram { id: u32 },
    Uniform1i { location: i32, value: i32 },
    CreateVertexArray { id: u32 },
    BindVertexArray { id: u32 },
    CreateBuffer { id: u32, usage: u32 },
    BindBuffer { usage: u32, id: u32 },
    VertexBuffer { vao: u32, buf: u32, stride: i32 },
    ElementBuffer { vao: u32, buf: u32 },
    AttribFormat { vao: u32, index: u32, size: i32, is_float: bool, offset: u32 },
}

/// Does `c` create texture `id` with a spec whose view is `spec`?
pub open spec fn creates_texture(c: GlCmd, id: u32, spec: TexSpecView) -> bool {
    match c {
        GlCmd::CreateTexture { id: i, spec: s } => i == id && s@ == spec,
        _ => false,
    }
}

/// Does `c` select `attachments` as the draw buffers of framebuffer `fbo`?
pub open spec fn sets_draw_buffers(c: GlCmd, fbo: u32, attachments: Seq<u32>) -> bool {
    match c {
        GlCmd::DrawBuffers { fbo: f, attachments: a } => f == fbo && a@ == attachments,
        _ => false,
    }
}

pub struct RenderContext {
    /// The handle that the next created resource receives.
    pub next_handle: u32,
    /// The program that uniform setters act on, if one is bound.
    pub program: Option<u32>,
    /// The framebuffer that draws go to.
    pub framebuffer: u32,
    /// Every effect issued so far, oldest first.
    pub cmds: Vec<GlCmd>,
}

impl RenderContext {
    /// Are there `n` more handles to give out?
    pub open spec fn has_room(&self, n: int) -> bool {
        self.next_handle + n <= u32::MAX
    }

    /// `self` is `old` with `n` more handles given out and the same bindings.
    pub open spec fn allocated_from(&self, old: RenderContext, n: int) -> bool {
        &&& self.next_handle == old.next_handle + n
        &&& self.program == old.program
        &&& self.framebuffer == old.framebuffer
        &&& old.cmds@.is_prefix_of(self.cmds@)
    }

    /// `self` is `old` with the single command `c` issued and nothing else changed.
    pub open spec fn issued_one(&self, old: RenderContext, c: GlCmd) -> bool {
        &&& self.next_handle == old.next_handle
        &&& self.program == old.program
        &&& self.framebuffer == old.framebuffer
        &&& self.cmds@ == old.cmds@.push(c)
    }

    pub fn new() -> (r: RenderContext)
        ensures
            r.next_handle == 1,
            r.program is None,
            r.framebuffer == 0,
            r.cmds@.len() == 0,
    {
        RenderContext { next_handle: 1, program: None, framebuffer: 0, cmds: Vec::new() }
    }

    /// How many handles can still be given out.
    pub fn handles_left(&self) -> (r: u32)
        ensures
            r == u32::MAX - self.next_handle,
    {
        u32::MAX - self.next_handle
    }

    /// Takes the next handle.
    pub fn fresh_handle(&mut self) -> (r: u32)
        requires
            old(self).has_room(1),
        ensures
            r == old(self).next_handle,
            r >= 1 || old(self).next_handle == 0,
            final(self).next_handle == old(self).next_handle + 1,
            final(self).program == old(self).program,
            final(self).framebuffer == old(self).framebuffer,
            final(self).cmds == old(self).cmds,
    {
        let r = self.next_handle;
        self.next_handle = self.next_handle + 1;
        r
    }

    /// Records `c`.
    pub fn issue(&mut self, c: GlCmd)
        ensures
            final(self).next_handle == old(self).next_handle,
            final(self).program == old(self).program,
            final(self).framebuffer == old(self).framebuffer,
            final(self).cmds@ == old(self).cmds@.push(c),
    {
        self.cmds.push(c);
    }

    /// Hands the recorded commands to the backend and forgets them.
    pub fn take_cmds(&mut self) -> (r: Vec<GlCmd>)
        ensures
            r@ == old(self).cmds@,
            final(self).cmds@.len() == 0,
            final(self).next_handle == old(self).next_handle,
            final(self).program == old(self).program,
            final(self).framebuffer == old(self).framebuffer,
    {
        let mut out: Vec<GlCmd> = Vec::new();
        std::mem::swap(&mut self.cmds, &mut out);
        out
    }
}

} // verus!
