//! GPU resources: textures and their format presets, framebuffers with their
//! attachment tables, vertex arrays and buffers, and shader programs with
//! their uniform tables. Every effect goes through a `RenderContext`.

use vstd::prelude::*;
use crate::context::{creates_texture, GlCmd, RenderContext};
use crate::gl_enum::{ARRAY_BUFFER, DEPTH_COMPONENT, ELEMENT_ARRAY_BUFFER, DEPTH_COMPONENT24, LINEAR, NEAREST, R16F, RED, RGBA, RGBA16F, RGBA8};

verus! {

/// A texture's format, as plain values.
pub struct TexSpecView {
    pub width: i32,
    pub height: i32,
    pub internal_format: u32,
    pub format: u32,
    pub min_filter: u32,
    pub mag_filter: u32,
    pub pixels: Option<Seq<u8>>,
}

/// The format a texture is created with, and its initial pixels if any.
#[derive(Clone, Debug, PartialEq)]
pub struct TexSpec {
    pub width: i32,
    pub height: i32,
    pub internal_format: u32,
    pub format: u32,
    pub min_filter: u32,
    pub mag_filter: u32,
    pub pixels: Option<Vec<u8>>,
}

impl View for TexSpec {
    type V = TexSpecView;

    open spec fn view(&self) -> TexSpecView {
        TexSpecView {
            width: self.width,
            height: self.height,
            internal_format: self.internal_format,
            format: self.format,
            min_filter: self.min_filter,
            mag_filter: self.mag_filter,
            pixels: match self.pixels {
                Some(p) => Some(p@),
                None => None,
            },
        }
    }
}

/// A preset format: no initial pixels, one filter for both directions.
pub open spec fn preset(
    width: i32,
    height: i32,
    internal_format: u32,
    format: u32,
    filter: u32,
) -> TexSpecView {
    TexSpecView {
        width,
        height,
        internal_format,
        format,
        min_filter: filter,
        mag_filter: filter,
        pixels: None,
    }
}

/// `s` with its size replaced by `width` x `height`.
pub open spec fn resized(s: TexSpecView, width: i32, height: i32) -> TexSpecView {
    TexSpecView { width, height, ..s }
}

impl TexSpec {
    /// The all-zero format that stands for "no texture".
    pub fn invalid() -> (r: TexSpec)
        ensures
            r@ == preset(0, 0, 0, 0, 0),
    {
        TexSpec {
            width: 0,
            height: 0,
            internal_format: 0,
            format: 0,
            min_filter: 0,
            mag_filter: 0,
            pixels: None,
        }
    }

    pub fn rgba8_linear(width: i32, height: i32) -> (r: TexSpec)
        ensures
            r@ == preset(width, height, RGBA8, RGBA, LINEAR),
    {
        TexSpec {
            width,
            height,
            internal_format: RGBA8,
            format: RGBA,
            min_filter: LINEAR,
            mag_filter: LINEAR,
            pixels: None,
        }
    }

    pub fn rgba8_nearest(width: i32, height: i32) -> (r: TexSpec)
        ensures
            r@ == preset(width, height, RGBA8, RGBA, NEAREST),
    {
        TexSpec { min_filter: NEAREST, mag_filter: NEAREST, ..Self::rgba8_linear(width, height) }
    }

    pub fn rgba16_linear(width: i32, height: i32) -> (r: TexSpec)
        ensures
            r@ == preset(width, height, RGBA16F, RGBA, LINEAR),
    {
        TexSpec {
            width,
            height,
            internal_format: RGBA16F,
            format: RGBA,
            min_filter: LINEAR,
            mag_filter: LINEAR,
            pixels: None,
        }
    }

    pub fn rgba16_nearest(width: i32, height: i32) -> (r: TexSpec)
        ensures
            r@ == preset(width, height, RGBA16F, RGBA, NEAREST),
    {
        TexSpec { min_filter: NEAREST, mag_filter: NEAREST, ..Self::rgba16_linear(width, height) }
    }

    pub fn r16f_nearest(width: i32, height: i32) -> (r: TexSpec)
        ensures
            r@ == preset(width, height, R16F, RED, NEAREST),
    {
        TexSpec {
            width,
            height,
            internal_format: R16F,
            format: RED,
            min_filter: NEAREST,
            mag_filter: NEAREST,
            pixels: None,
        }
    }

    pub fn r16f_linear(width: i32, height: i32) -> (r: TexSpec)
        ensures
            r@ == preset(width, height, R16F, RED, LINEAR),
    {
        TexSpec { min_filter: LINEAR, mag_filter: LINEAR, ..Self::r16f_nearest(width, height) }
    }

    pub fn depth24_nearest(width: i32, height: i32) -> (r: TexSpec)
        ensures
            r@ == preset(width, height, DEPTH_COMPONENT24, DEPTH_COMPONENT, NEAREST),
    {
        TexSpec {
            width,
            height,
            internal_format: DEPTH_COMPONENT24,
            format: DEPTH_COMPONENT,
            min_filter: NEAREST,
            mag_filter: NEAREST,
            pixels: None,
        }
    }

    /// A copy of this format at another size; the pixels are copied as they are.
    pub fn with_size(&self, width: i32, height: i32) -> (r: TexSpec)
        ensures
            r@ == resized(self@, width, height),
    {
        let pixels = match &self.pixels {
            Some(p) => Some(p.clone()),
            None => None,
        };
        TexSpec {
            width,
            height,
            internal_format: self.internal_format,
            format: self.format,
            min_filter: self.min_filter,
            mag_filter: self.mag_filter,
            pixels,
        }
    }
}

/// A texture: its handle and the format it was created with.
#[derive(Clone, Debug, PartialEq)]
pub struct Tex {
    pub id: u32,
    pub spec: TexSpec,
}

impl Tex {
    /// Creates a texture with format `spec` under a fresh handle.
    pub fn new(ctx: &mut RenderContext, spec: &TexSpec) -> (r: Tex)
        requires
            old(ctx).has_room(1),
        ensures
            r.id == old(ctx).next_handle,
            r.spec@ == spec@,
            final(ctx).allocated_from(*old(ctx), 1),
            final(ctx).cmds@.len() == old(ctx).cmds@.len() + 1,
            creates_texture(final(ctx).cmds@.last(), r.id, spec@),
    {
        let id = ctx.fresh_handle();
        ctx.issue(GlCmd::CreateTexture { id, spec: spec.with_size(spec.width, spec.height) });
        Tex { id, spec: spec.with_size(spec.width, spec.height) }
    }

    /// Creates a new texture with this one's format at size
    /// `new_width` x `new_height`. This texture is left as it is.
    pub fn resize(&self, ctx: &mut RenderContext, new_width: i32, new_height: i32) -> (r: Tex)
        requires
            old(ctx).has_room(1),
        ensures
            r.id == old(ctx).next_handle,
            r.spec@ == resized(self.spec@, new_width, new_height),
            final(ctx).allocated_from(*old(ctx), 1),
            final(ctx).cmds@.len() == old(ctx).cmds@.len() + 1,
            creates_texture(final(ctx).cmds@.last(), r.id, r.spec@),
    {
        let spec = self.spec.with_size(new_width, new_height);
        Self::new(ctx, &spec)
    }

    /// Binds this texture to texture unit `unit`.
    pub fn bind(&self, ctx: &mut RenderContext, unit: u32)
        ensures
            final(ctx).issued_one(*old(ctx), GlCmd::BindTexture { unit, id: self.id }),
    {
        ctx.issue(GlCmd::BindTexture { unit, id: self.id });
    }
}

/// A vertex array object.
#[derive(Debug)]
pub struct Vao(pub u32);

impl Vao {
    pub fn new(ctx: &mut RenderContext) -> (r: Vao)
        requires
            old(ctx).has_room(1),
        ensures
            r.0 == old(ctx).next_handle,
            final(ctx).next_handle == old(ctx).next_handle + 1,
            final(ctx).program == old(ctx).program,
            final(ctx).framebuffer == old(ctx).framebuffer,
            final(ctx).cmds@ == old(ctx).cmds@.push(GlCmd::CreateVertexArray { id: r.0 }),
    {
        let id = ctx.fresh_handle();
        ctx.issue(GlCmd::CreateVertexArray { id });
        Vao(id)
    }

    pub fn bind(&self, ctx: &mut RenderContext)
        ensures
            final(ctx).issued_one(*old(ctx), GlCmd::BindVertexArray { id: self.0 }),
    {
        ctx.issue(GlCmd::BindVertexArray { id: self.0 });
    }
}

/// A buffer object and the target it is bound to.
#[derive(Debug)]
pub struct Buf {
    pub id: u32,
    pub usage: u32,
}

impl Buf {
    pub fn new(ctx: &mut RenderContext, usage: u32) -> (r: Buf)
        requires
            old(ctx).has_room(1),
        ensures
            r.id == old(ctx).next_handle,
            r.usage == usage,
            final(ctx).next_handle == old(ctx).next_handle + 1,
            final(ctx).program == old(ctx).program,
            final(ctx).framebuffer == old(ctx).framebuffer,
            final(ctx).cmds@ == old(ctx).cmds@.push(GlCmd::CreateBuffer { id: r.id, usage }),
    {
        let id = ctx.fresh_handle();
        ctx.issue(GlCmd::CreateBuffer { id, usage });
        Buf { id, usage }
    }

    pub fn bind(&self, ctx: &mut RenderContext)
        ensures
            final(ctx).issued_one(*old(ctx), GlCmd::BindBuffer { usage: self.usage, id: self.id }),
    {
        ctx.issue(GlCmd::BindBuffer { usage: self.usage, id: self.id });
    }
}

/// The shape of one vertex attribute: its component count, and whether
/// its components are floats (else integers).
pub const FLOAT_1: (i32, bool) = (1, true);
pub const FLOAT_2: (i32, bool) = (2, true);
pub const FLOAT_3: (i32, bool) = (3, true);
pub const FLOAT_4: (i32, bool) = (4, true);

/// Every attribute has one to four components, and the vertex's size in
/// bytes fits in an `i32`.
pub open spec fn valid_attribs(attribs: Seq<(i32, bool)>) -> bool {
    &&& attribs.len() < 0x0800_0000
    &&& forall|i: int| 0 <= i < attribs.len() ==> 1 <= (#[trigger] attribs[i]).0 <= 4
}

/// The components of the first `n` attributes.
pub open spec fn components(attribs: Seq<(i32, bool)>, n: int) -> int
    decreases n,
{
    if n <= 0 {
        0
    } else {
        components(attribs, n - 1) + attribs[n - 1].0
    }
}

pub proof fn lemma_components_bounds(attribs: Seq<(i32, bool)>, n: int)
    requires
        valid_attribs(attribs),
        0 <= n <= attribs.len(),
    ensures
        n <= components(attribs, n) <= 4 * n,
    decreases n,
{
    if n > 0 {
        lemma_components_bounds(attribs, n - 1);
    }
}

/// The commands that describe an interleaved vertex of shape `attribs` to
/// vertex array `vao`: attribute `i` at byte offset four times the
/// components before it, all read from binding 0.
pub open spec fn layout_cmds(vao: u32, attribs: Seq<(i32, bool)>) -> Seq<GlCmd> {
    Seq::new(
        attribs.len(),
        |i: int|
            GlCmd::AttribFormat {
                vao,
                index: i as u32,
                size: attribs[i].0,
                is_float: attribs[i].1,
                offset: (4 * components(attribs, i)) as u32,
            },
    )
}

/// Describes the attributes of an interleaved vertex to `vao`.
pub fn gl_select_attribs(ctx: &mut RenderContext, attribs: &[(i32, bool)], vao: &Vao)
    requires
        valid_attribs(attribs@),
    ensures
        final(ctx).next_handle == old(ctx).next_handle,
        final(ctx).program == old(ctx).program,
        final(ctx).framebuffer == old(ctx).framebuffer,
        final(ctx).cmds@ == old(ctx).cmds@ + layout_cmds(vao.0, attribs@),
{
    let ghost c0 = ctx.cmds@;
    let mut off: u32 = 0;
    let mut i: usize = 0;
    while i < attribs.len()
        invariant
            valid_attribs(attribs@),
            0 <= i <= attribs@.len(),
            off == 4 * components(attribs@, i as int),
            ctx.next_handle == old(ctx).next_handle,
            ctx.program == old(ctx).program,
            ctx.framebuffer == old(ctx).framebuffer,
            c0 == old(ctx).cmds@,
            ctx.cmds@ == c0 + layout_cmds(vao.0, attribs@).take(i as int),
        decreases attribs@.len() - i,
    {
        proof {
            lemma_components_bounds(attribs@, i + 1);
        }
        ctx.issue(
            GlCmd::AttribFormat {
                vao: vao.0,
                index: i as u32,
                size: attribs[i].0,
                is_float: attribs[i].1,
                offset: off,
            },
        );
        off = off + attribs[i].0 as u32 * 4;
        proof {
            assert(layout_cmds(vao.0, attribs@).take(i + 1) =~= layout_cmds(vao.0, attribs@).take(
                i as int,
            ).push(layout_cmds(vao.0, attribs@)[i as int]));
        }
        i = i + 1;
    }
    proof {
        assert(layout_cmds(vao.0, attribs@).take(attribs@.len() as int) =~= layout_cmds(vao.0, attribs@));
    }
}

/// The bytes between one interleaved vertex of shape `attribs` and the next.
pub fn vertex_stride(attribs: &[(i32, bool)]) -> (r: i32)
    requires
        valid_attribs(attribs@),
    ensures
        r == 4 * components(attribs@, attribs@.len() as int),
{
    let mut sum: i32 = 0;
    let mut i: usize = 0;
    while i < attribs.len()
        invariant
            valid_attribs(attribs@),
            0 <= i <= attribs@.len(),
            sum == components(attribs@, i as int),
        decreases attribs@.len() - i,
    {
        proof {
            lemma_components_bounds(attribs@, i + 1);
        }
        sum = sum + attribs[i].0;
        i = i + 1;
    }
    proof {
        lemma_components_bounds(attribs@, attribs@.len() as int);
    }
    sum * 4
}

/// Creates a vertex array with a vertex buffer laid out as `attribs`.
pub fn gl_gen_v(ctx: &mut RenderContext, attribs: &[(i32, bool)]) -> (r: (Vao, Buf))
    requires
        old(ctx).has_room(2),
        valid_attribs(attribs@),
    ensures
        r.0.0 == old(ctx).next_handle,
        r.1.id == old(ctx).next_handle + 1,
        r.1.usage == ARRAY_BUFFER,
        final(ctx).next_handle == old(ctx).next_handle + 2,
        final(ctx).program == old(ctx).program,
        final(ctx).framebuffer == old(ctx).framebuffer,
        final(ctx).cmds@ == old(ctx).cmds@ + seq![
            GlCmd::CreateVertexArray { id: r.0.0 },
            GlCmd::CreateBuffer { id: r.1.id, usage: ARRAY_BUFFER },
            GlCmd::VertexBuffer {
                vao: r.0.0,
                buf: r.1.id,
                stride: (4 * components(attribs@, attribs@.len() as int)) as i32,
            },
        ] + layout_cmds(r.0.0, attribs@),
{
    let ghost c0 = ctx.cmds@;
    let vao = Vao::new(ctx);
    let vbo = Buf::new(ctx, ARRAY_BUFFER);
    let stride = vertex_stride(attribs);
    ctx.issue(GlCmd::VertexBuffer { vao: vao.0, buf: vbo.id, stride });
    let ghost c1 = ctx.cmds@;
    gl_select_attribs(ctx, attribs, &vao);
    proof {
        assert(c1 =~= c0 + seq![
            GlCmd::CreateVertexArray { id: vao.0 },
            GlCmd::CreateBuffer { id: vbo.id, usage: ARRAY_BUFFER },
            GlCmd::VertexBuffer { vao: vao.0, buf: vbo.id, stride },
        ]);
    }
    (vao, vbo)
}

/// Creates a vertex array with a vertex buffer laid out as `attribs` and an
/// index buffer.
pub fn gl_gen_vi(ctx: &mut RenderContext, attribs: &[(i32, bool)]) -> (r: (Vao, Buf, Buf))
    requires
        old(ctx).has_room(3),
        valid_attribs(attribs@),
    ensures
        r.0.0 == old(ctx).next_handle,
        r.1.id == old(ctx).next_handle + 1,
        r.1.usage == ARRAY_BUFFER,
        r.2.id == old(ctx).next_handle + 2,
        r.2.usage == ELEMENT_ARRAY_BUFFER,
        final(ctx).next_handle == old(ctx).next_handle + 3,
        final(ctx).program == old(ctx).program,
        final(ctx).framebuffer == old(ctx).framebuffer,
        final(ctx).cmds@ == old(ctx).cmds@ + seq![
            GlCmd::CreateVertexArray { id: r.0.0 },
            GlCmd::CreateBuffer { id: r.1.id, usage: ARRAY_BUFFER },
            GlCmd::CreateBuffer { id: r.2.id, usage: ELEMENT_ARRAY_BUFFER },
            GlCmd::VertexBuffer {
                vao: r.0.0,
                buf: r.1.id,
                stride: (4 * components(attribs@, attribs@.len() as int)) as i32,
            },
            GlCmd::ElementBuffer { vao: r.0.0, buf: r.2.id },
        ] + layout_cmds(r.0.0, attribs@),
{
    let ghost c0 = ctx.cmds@;
    let vao = Vao::new(ctx);
    let vbo = Buf::new(ctx, ARRAY_BUFFER);
    let ibo = Buf::new(ctx, ELEMENT_ARRAY_BUFFER);
    let stride = vertex_stride(attribs);
    ctx.issue(GlCmd::VertexBuffer { vao: vao.0, buf: vbo.id, stride });
    ctx.issue(GlCmd::ElementBuffer { vao: vao.0, buf: ibo.id });
    let ghost c1 = ctx.cmds@;
    gl_select_attribs(ctx, attribs, &vao);
    proof {
        assert(c1 =~= c0 + seq![
            GlCmd::CreateVertexArray { id: vao.0 },
            GlCmd::CreateBuffer { id: vbo.id, usage: ARRAY_BUFFER },
            GlCmd::CreateBuffer { id: ibo.id, usage: ELEMENT_ARRAY_BUFFER },
            GlCmd::VertexBuffer { vao: vao.0, buf: vbo.id, stride },
            GlCmd::ElementBuffer { vao: vao.0, buf: ibo.id },
        ]);
    }
    (vao, vbo, ibo)
}

} // verus!
