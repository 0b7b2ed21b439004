use hana::context::{GlCmd, RenderContext};
use hana::fbo::{attachment_mask, window_fbo, DefaultFbo, Fbo, FboError, FramebufferAttached};
use hana::gl_enum::{
    ARRAY_BUFFER, COLOR_ATTACHMENT0, COLOR_ATTACHMENT31, COLOR_BUFFER_BIT, DEPTH_ATTACHMENT,
    DEPTH_BUFFER_BIT, DEPTH_COMPONENT, DEPTH_COMPONENT24, ELEMENT_ARRAY_BUFFER, LINEAR, NEAREST,
    R16F, RED, RGBA, RGBA16F, RGBA8,
};
use hana::glu::{gl_gen_v, gl_gen_vi, vertex_stride, Tex, TexSpec, FLOAT_2, FLOAT_3, FLOAT_4};

const COLOR_ATTACHMENT1: u32 = COLOR_ATTACHMENT0 + 1;
const COLOR_ATTACHMENT2: u32 = COLOR_ATTACHMENT0 + 2;

#[test]
fn presets_have_their_formats() {
    let s = TexSpec::rgba8_linear(4, 5);
    assert_eq!((s.width, s.height, s.internal_format, s.format, s.min_filter, s.mag_filter), (4, 5, RGBA8, RGBA, LINEAR, LINEAR));
    assert!(s.pixels.is_none());
    let s = TexSpec::rgba8_nearest(4, 5);
    assert_eq!((s.internal_format, s.format, s.min_filter, s.mag_filter), (RGBA8, RGBA, NEAREST, NEAREST));
    let s = TexSpec::rgba16_linear(1, 2);
    assert_eq!((s.internal_format, s.format, s.min_filter, s.mag_filter), (RGBA16F, RGBA, LINEAR, LINEAR));
    let s = TexSpec::rgba16_nearest(1, 2);
    assert_eq!((s.internal_format, s.min_filter, s.mag_filter), (RGBA16F, NEAREST, NEAREST));
    let s = TexSpec::r16f_nearest(1, 2);
    assert_eq!((s.internal_format, s.format, s.min_filter, s.mag_filter), (R16F, RED, NEAREST, NEAREST));
    let s = TexSpec::r16f_linear(1, 2);
    assert_eq!((s.internal_format, s.format, s.min_filter, s.mag_filter), (R16F, RED, LINEAR, LINEAR));
    let s = TexSpec::depth24_nearest(7, 8);
    assert_eq!((s.width, s.height, s.internal_format, s.format, s.min_filter), (7, 8, DEPTH_COMPONENT24, DEPTH_COMPONENT, NEAREST));
}

#[test]
fn invalid_spec_is_all_zero() {
    let s = TexSpec::invalid();
    assert_eq!((s.width, s.height, s.internal_format, s.format, s.min_filter, s.mag_filter), (0, 0, 0, 0, 0, 0));
    assert!(s.pixels.is_none());
}

#[test]
fn tex_new_issues_creation() {
    let mut ctx = RenderContext::new();
    let t = Tex::new(&mut ctx, &TexSpec::rgba8_linear(2, 3));
    assert_eq!(t.id, 1);
    assert_eq!(ctx.next_handle, 2);
    assert_eq!(ctx.cmds, vec![GlCmd::CreateTexture { id: 1, spec: TexSpec::rgba8_linear(2, 3) }]);
}

#[test]
fn tex_resize_keeps_format_and_pixels() {
    let mut ctx = RenderContext::new();
    let mut spec = TexSpec::r16f_linear(2, 2);
    spec.pixels = Some(vec![1, 2, 3]);
    let t = Tex::new(&mut ctx, &spec);
    let r = t.resize(&mut ctx, 8, 6);
    assert_eq!(r.id, 2);
    assert_eq!((r.spec.width, r.spec.height), (8, 6));
    assert_eq!(r.spec.internal_format, R16F);
    assert_eq!(r.spec.pixels, Some(vec![1, 2, 3]));
    assert_eq!((t.spec.width, t.spec.height), (2, 2));
    assert_eq!(ctx.cmds.len(), 2);
}

#[test]
fn fbo_new_attaches_every_slot() {
    let mut ctx = RenderContext::new();
    let f = Fbo::new(&mut ctx, &[
        (COLOR_ATTACHMENT0, TexSpec::rgba8_linear(4, 4)),
        (DEPTH_ATTACHMENT, TexSpec::depth24_nearest(4, 4)),
    ]);
    assert_eq!(f.id, 1);
    assert_eq!(f.attachments.len(), 2);
    assert_eq!(f.tex_at(COLOR_ATTACHMENT0).unwrap().id, 2);
    assert_eq!(f.tex_at(DEPTH_ATTACHMENT).unwrap().id, 3);
    assert_eq!(ctx.cmds.len(), 5);
    assert_eq!(ctx.cmds[0], GlCmd::CreateFramebuffer { id: 1 });
    assert_eq!(ctx.cmds[2], GlCmd::FramebufferTexture { fbo: 1, attachment: COLOR_ATTACHMENT0, tex: 2 });
    assert_eq!(ctx.cmds[4], GlCmd::FramebufferTexture { fbo: 1, attachment: DEPTH_ATTACHMENT, tex: 3 });
}

#[test]
fn tex_at_missing_slot_is_an_error() {
    let mut ctx = RenderContext::new();
    let f = Fbo::new(&mut ctx, &[(COLOR_ATTACHMENT0, TexSpec::rgba8_linear(4, 4))]);
    assert_eq!(f.tex_at(DEPTH_ATTACHMENT), Err(FboError::MissingAttachment(DEPTH_ATTACHMENT)));
}

#[test]
fn resize_changes_listed_slots_only() {
    let mut ctx = RenderContext::new();
    let mut f = Fbo::new(&mut ctx, &[
        (COLOR_ATTACHMENT0, TexSpec::rgba16_linear(4, 4)),
        (COLOR_ATTACHMENT1, TexSpec::rgba16_linear(4, 4)),
        (COLOR_ATTACHMENT2, TexSpec::rgba8_nearest(4, 4)),
        (DEPTH_ATTACHMENT, TexSpec::depth24_nearest(4, 4)),
    ]);
    let kept = f.tex_at(COLOR_ATTACHMENT1).unwrap().clone();
    let old_depth = f.tex_at(DEPTH_ATTACHMENT).unwrap().id;
    ctx.take_cmds();
    let first = ctx.next_handle;
    assert_eq!(f.resize_attachments(&mut ctx, &[COLOR_ATTACHMENT0, COLOR_ATTACHMENT2, DEPTH_ATTACHMENT], 20, 10), Ok(()));
    for a in [COLOR_ATTACHMENT0, COLOR_ATTACHMENT2, DEPTH_ATTACHMENT] {
        let t = f.tex_at(a).unwrap();
        assert_eq!((t.spec.width, t.spec.height), (20, 10));
    }
    assert_eq!(f.tex_at(COLOR_ATTACHMENT2).unwrap().spec.internal_format, RGBA8);
    assert_eq!(f.tex_at(DEPTH_ATTACHMENT).unwrap().spec.internal_format, DEPTH_COMPONENT24);
    assert_eq!(f.tex_at(COLOR_ATTACHMENT1).unwrap(), &kept);
    assert_eq!(ctx.cmds.len(), 9);
    assert_eq!(ctx.cmds[7], GlCmd::DeleteTexture { id: old_depth });
    assert_eq!(ctx.cmds[8], GlCmd::FramebufferTexture { fbo: f.id, attachment: DEPTH_ATTACHMENT, tex: first + 2 });
}

#[test]
fn resize_with_missing_slot_changes_nothing() {
    let mut ctx = RenderContext::new();
    let mut f = Fbo::new(&mut ctx, &[(COLOR_ATTACHMENT0, TexSpec::rgba8_linear(4, 4))]);
    let n = ctx.cmds.len();
    let r = f.resize_attachments(&mut ctx, &[COLOR_ATTACHMENT0, DEPTH_ATTACHMENT], 8, 8);
    assert_eq!(r, Err(FboError::MissingAttachment(DEPTH_ATTACHMENT)));
    assert_eq!(f.tex_at(COLOR_ATTACHMENT0).unwrap().spec.width, 4);
    assert_eq!(ctx.cmds.len(), n);
}

#[test]
fn attachment_masks() {
    assert_eq!(attachment_mask(COLOR_ATTACHMENT0), Some(COLOR_BUFFER_BIT));
    assert_eq!(attachment_mask(COLOR_ATTACHMENT31), Some(COLOR_BUFFER_BIT));
    assert_eq!(attachment_mask(DEPTH_ATTACHMENT), Some(DEPTH_BUFFER_BIT));
    assert_eq!(attachment_mask(COLOR_ATTACHMENT0 - 1), None);
    assert_eq!(attachment_mask(DEPTH_ATTACHMENT + 1), None);
}

#[test]
fn blit_colour_selects_buffers_then_blits() {
    let mut ctx = RenderContext::new();
    let src = Fbo::new(&mut ctx, &[(COLOR_ATTACHMENT0, TexSpec::rgba8_linear(200, 100))]);
    let dst = window_fbo(100, 50);
    ctx.take_cmds();
    assert_eq!(src.blit(&mut ctx, &dst, COLOR_ATTACHMENT0, COLOR_ATTACHMENT0, LINEAR), Ok(()));
    assert_eq!(ctx.cmds, vec![
        GlCmd::ReadBuffer { fbo: src.id, attachment: COLOR_ATTACHMENT0 },
        GlCmd::DrawBuffers { fbo: 0, attachments: vec![COLOR_ATTACHMENT0] },
        GlCmd::Blit { src: src.id, dst: 0, src_width: 200, src_height: 100, dst_width: 100, dst_height: 50, mask: COLOR_BUFFER_BIT, filter: LINEAR },
    ]);
}

#[test]
fn blit_depth_blits_only() {
    let mut ctx = RenderContext::new();
    let a = Fbo::new(&mut ctx, &[(DEPTH_ATTACHMENT, TexSpec::depth24_nearest(8, 8))]);
    let b = Fbo::new(&mut ctx, &[(DEPTH_ATTACHMENT, TexSpec::depth24_nearest(4, 4))]);
    ctx.take_cmds();
    assert_eq!(a.blit(&mut ctx, &b, DEPTH_ATTACHMENT, DEPTH_ATTACHMENT, NEAREST), Ok(()));
    assert_eq!(ctx.cmds.len(), 1);
    assert!(matches!(ctx.cmds[0], GlCmd::Blit { mask: DEPTH_BUFFER_BIT, src_width: 8, dst_width: 4, .. }));
}

#[test]
fn blit_misuses_are_reported() {
    let mut ctx = RenderContext::new();
    let a = Fbo::new(&mut ctx, &[
        (COLOR_ATTACHMENT0, TexSpec::rgba8_linear(8, 8)),
        (DEPTH_ATTACHMENT, TexSpec::depth24_nearest(8, 8)),
    ]);
    let b = Fbo::new(&mut ctx, &[(COLOR_ATTACHMENT0, TexSpec::rgba8_linear(8, 8))]);
    ctx.take_cmds();
    assert_eq!(a.blit(&mut ctx, &b, 7, COLOR_ATTACHMENT0, LINEAR), Err(FboError::InvalidSrcAttachment(7)));
    assert_eq!(a.blit(&mut ctx, &b, COLOR_ATTACHMENT0, 9, LINEAR), Err(FboError::InvalidDstAttachment(9)));
    assert_eq!(a.blit(&mut ctx, &b, DEPTH_ATTACHMENT, COLOR_ATTACHMENT0, LINEAR), Err(FboError::KindMismatch(DEPTH_ATTACHMENT, COLOR_ATTACHMENT0)));
    assert_eq!(b.blit(&mut ctx, &a, COLOR_ATTACHMENT1, COLOR_ATTACHMENT0, LINEAR), Err(FboError::MissingOnSrc(COLOR_ATTACHMENT1)));
    assert_eq!(a.blit(&mut ctx, &b, DEPTH_ATTACHMENT, DEPTH_ATTACHMENT, LINEAR), Err(FboError::MissingOnDst(DEPTH_ATTACHMENT)));
    assert!(ctx.cmds.is_empty());
}

#[test]
fn bind_and_buffer_selection() {
    let mut ctx = RenderContext::new();
    let f = Fbo::new(&mut ctx, &[(COLOR_ATTACHMENT0, TexSpec::rgba8_linear(8, 8))]);
    ctx.take_cmds();
    f.bind(&mut ctx);
    assert_eq!(ctx.framebuffer, f.id);
    f.draw_buffers(&mut ctx, &[COLOR_ATTACHMENT0, COLOR_ATTACHMENT1]);
    f.read_buffers(&mut ctx, COLOR_ATTACHMENT0);
    f.tex_at(COLOR_ATTACHMENT0).unwrap().bind(&mut ctx, 0x84C0);
    assert_eq!(ctx.cmds, vec![
        GlCmd::BindFramebuffer { id: f.id },
        GlCmd::DrawBuffers { fbo: f.id, attachments: vec![COLOR_ATTACHMENT0, COLOR_ATTACHMENT1] },
        GlCmd::ReadBuffer { fbo: f.id, attachment: COLOR_ATTACHMENT0 },
        GlCmd::BindTexture { unit: 0x84C0, id: 2 },
    ]);
}

#[test]
fn default_fbo_is_cached_until_resize() {
    let mut d = DefaultFbo::new();
    let f = d.fbo0(640, 480);
    assert_eq!(f.id, 0);
    assert_eq!(f.attachments.len(), 32);
    let t = f.tex_at(COLOR_ATTACHMENT31).unwrap();
    assert_eq!((t.id, t.spec.width, t.spec.height, t.spec.internal_format), (0, 640, 480, 0));
    assert!(f.tex_at(DEPTH_ATTACHMENT).is_err());
    assert_eq!(d.fbo0(640, 480).tex_at(COLOR_ATTACHMENT0).unwrap().spec.height, 480);
    let f = d.fbo0(800, 600);
    assert_eq!(f.tex_at(COLOR_ATTACHMENT0).unwrap().spec.width, 800);
}

#[test]
fn vertex_layout_offsets_and_stride() {
    assert_eq!(vertex_stride(&[FLOAT_3, FLOAT_3, FLOAT_4]), 40);
    assert_eq!(vertex_stride(&[]), 0);
    let mut ctx = RenderContext::new();
    let (vao, vbo, ibo) = gl_gen_vi(&mut ctx, &[FLOAT_3, FLOAT_3, FLOAT_4]);
    assert_eq!((vao.0, vbo.id, vbo.usage, ibo.id, ibo.usage), (1, 2, ARRAY_BUFFER, 3, ELEMENT_ARRAY_BUFFER));
    assert_eq!(ctx.cmds, vec![
        GlCmd::CreateVertexArray { id: 1 },
        GlCmd::CreateBuffer { id: 2, usage: ARRAY_BUFFER },
        GlCmd::CreateBuffer { id: 3, usage: ELEMENT_ARRAY_BUFFER },
        GlCmd::VertexBuffer { vao: 1, buf: 2, stride: 40 },
        GlCmd::ElementBuffer { vao: 1, buf: 3 },
        GlCmd::AttribFormat { vao: 1, index: 0, size: 3, is_float: true, offset: 0 },
        GlCmd::AttribFormat { vao: 1, index: 1, size: 3, is_float: true, offset: 12 },
        GlCmd::AttribFormat { vao: 1, index: 2, size: 4, is_float: true, offset: 24 },
    ]);
    let mut ctx = RenderContext::new();
    let (vao, vbo) = gl_gen_v(&mut ctx, &[FLOAT_2, (1, false)]);
    vao.bind(&mut ctx);
    vbo.bind(&mut ctx);
    assert_eq!(ctx.cmds[2], GlCmd::VertexBuffer { vao: 1, buf: 2, stride: 12 });
    assert_eq!(ctx.cmds[4], GlCmd::AttribFormat { vao: 1, index: 1, size: 1, is_float: false, offset: 8 });
    assert_eq!(ctx.cmds[5], GlCmd::BindVertexArray { id: 1 });
    assert_eq!(ctx.cmds[6], GlCmd::BindBuffer { usage: ARRAY_BUFFER, id: 2 });
}

#[test]
fn context_hands_out_handles_and_drains() {
    let mut ctx = RenderContext::new();
    assert_eq!(ctx.handles_left(), u32::MAX - 1);
    let t = Tex::new(&mut ctx, &TexSpec::invalid());
    assert_eq!(t.id, 1);
    assert_eq!(ctx.handles_left(), u32::MAX - 2);
    let cmds = ctx.take_cmds();
    assert_eq!(cmds.len(), 1);
    assert!(ctx.cmds.is_empty());
    assert_eq!(ctx.next_handle, 2);
}
