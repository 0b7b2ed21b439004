//! Framebuffers: a handle and a table from attachment slot to texture.

use std::collections::HashMap;
use vstd::prelude::*;
use crate::context::{creates_texture, sets_draw_buffers, GlCmd, RenderContext};
use crate::gl_enum::{
    COLOR_ATTACHMENT0, COLOR_ATTACHMENT31, COLOR_BUFFER_BIT, DEPTH_ATTACHMENT, DEPTH_BUFFER_BIT,
};
use crate::glu::{resized, Tex, TexSpec};

verus! {

broadcast use vstd::std_specs::hash::group_hash_axioms;

/// A misuse of a framebuffer that is reported instead of drawing a wrong frame.
#[derive(Debug, PartialEq, Eq, Structural)]
pub enum FboError {
    /// The source slot of a blit is neither a colour slot nor the depth slot.
    InvalidSrcAttachment(u32),
    /// The destination slot of a blit is neither a colour slot nor the depth slot.
    InvalidDstAttachment(u32),
    /// A blit between a colour slot and the depth slot (source, destination).
    KindMismatch(u32, u32),
    /// The source framebuffer has nothing in the slot.
    MissingOnSrc(u32),
    /// The destination framebuffer has nothing in the slot.
    MissingOnDst(u32),
    /// The framebuffer has nothing in the slot.
    MissingAttachment(u32),
}

/// The buffer bit that a slot belongs to: colour for the colour slots, depth
/// for the depth slot, none for anything else.
pub open spec fn mask_of(attachment: u32) -> Option<u32> {
    if COLOR_ATTACHMENT0 <= attachment <= COLOR_ATTACHMENT31 {
        Some(COLOR_BUFFER_BIT)
    } else if attachment == DEPTH_ATTACHMENT {
        Some(DEPTH_BUFFER_BIT)
    } else {
        None
    }
}

/// The last position below `n` at which `keys` holds `k`, or -1.
pub open spec fn last_pos(keys: Seq<u32>, k: u32, n: int) -> int
    decreases n,
{
    if n <= 0 {
        -1
    } else if keys[n - 1] == k {
        n - 1
    } else {
        last_pos(keys, k, n - 1)
    }
}

pub proof fn lemma_last_pos_bounds(keys: Seq<u32>, k: u32, n: int)
    requires
        0 <= n <= keys.len(),
    ensures
        -1 <= last_pos(keys, k, n) < n,
        last_pos(keys, k, n) >= 0 ==> keys[last_pos(keys, k, n)] == k,
    decreases n,
{
    if n > 0 && keys[n - 1] != k {
        lemma_last_pos_bounds(keys, k, n - 1);
    }
}

pub proof fn lemma_last_pos_found(keys: Seq<u32>, k: u32, n: int, j: int)
    requires
        0 <= j < n <= keys.len(),
        keys[j] == k,
    ensures
        j <= last_pos(keys, k, n),
    decreases n,
{
    if keys[n - 1] != k {
        lemma_last_pos_found(keys, k, n - 1, j);
    }
}

pub proof fn lemma_last_pos_absent(keys: Seq<u32>, k: u32, n: int)
    requires
        0 <= n <= keys.len(),
        !keys.take(n).contains(k),
    ensures
        last_pos(keys, k, n) == -1,
    decreases n,
{
    if n > 0 {
        assert(keys.take(n)[n - 1] == keys[n - 1]);
        assert(keys.take(n - 1) =~= keys.take(n).take(n - 1));
        if keys.take(n - 1).contains(k) {
            let i = choose|i: int| 0 <= i < n - 1 && #[trigger] keys.take(n - 1)[i] == k;
            assert(keys.take(n)[i] == k);
        }
        lemma_last_pos_absent(keys, k, n - 1);
    }
}

/// The slots of a list of (slot, format) pairs.
pub open spec fn slots_of(attachments: Seq<(u32, TexSpec)>) -> Seq<u32> {
    attachments.map_values(|p: (u32, TexSpec)| p.0)
}

/// The first listed slot that `table` lacks is the one at `j`.
pub open spec fn first_missing_at(keys: Seq<u32>, table: Map<u32, Tex>, j: int) -> bool {
    &&& 0 <= j < keys.len()
    &&& !table.contains_key(keys[j])
    &&& forall|i: int| 0 <= i < j ==> table.contains_key(#[trigger] keys[i])
}

/// The texture for pair `j` of `attachments` is created and attached by the
/// two commands after the framebuffer's own, at `base`.
pub open spec fn attached_at(
    cmds: Seq<GlCmd>,
    base: int,
    fbo: u32,
    attachments: Seq<(u32, TexSpec)>,
    j: int,
) -> bool {
    &&& creates_texture(cmds[base + 1 + 2 * j], (fbo + 1 + j) as u32, attachments[j].1@)
    &&& cmds[base + 2 + 2 * j] == (GlCmd::FramebufferTexture {
        fbo,
        attachment: attachments[j].0,
        tex: (fbo + 1 + j) as u32,
    })
}

/// The handle that slot `k` holds after the first `n` listed slots of
/// `keys` were given new textures with handles from `first` on.
pub open spec fn id_after(keys: Seq<u32>, table: Map<u32, Tex>, first: u32, k: u32, n: int) -> u32 {
    let p = last_pos(keys, k, n);
    if p < 0 {
        table[k].id
    } else {
        (first + p) as u32
    }
}

/// The three commands that replace the texture of listed slot `j`: create
/// the new one, delete the one the slot held, attach the new one.
pub open spec fn replaced_at(
    cmds: Seq<GlCmd>,
    base: int,
    fbo: u32,
    keys: Seq<u32>,
    table: Map<u32, Tex>,
    first: u32,
    width: i32,
    height: i32,
    j: int,
) -> bool {
    &&& creates_texture(
        cmds[base + 3 * j],
        (first + j) as u32,
        resized(table[keys[j]].spec@, width, height),
    )
    &&& cmds[base + 3 * j + 1] == (GlCmd::DeleteTexture {
        id: id_after(keys, table, first, keys[j], j),
    })
    &&& cmds[base + 3 * j + 2] == (GlCmd::FramebufferTexture {
        fbo,
        attachment: keys[j],
        tex: (first + j) as u32,
    })
}

/// `table` after the first `n` listed slots of `keys` were given textures of
/// size `width` x `height` with handles from `first` on.
pub open spec fn resized_table(
    table: Map<u32, Tex>,
    now: Map<u32, Tex>,
    keys: Seq<u32>,
    first: u32,
    width: i32,
    height: i32,
    n: int,
) -> bool {
    &&& now.dom() == table.dom()
    &&& forall|k: u32|
        #![trigger now[k]]
        table.contains_key(k) ==> {
            if last_pos(keys, k, n) < 0 {
                now[k] == table[k]
            } else {
                &&& now[k].id == first + last_pos(keys, k, n)
                &&& now[k].spec@ == resized(table[k].spec@, width, height)
            }
        }
}

/// What blitting from slot `src_attachment` of a framebuffer with table
/// `src` to slot `dst_attachment` of one with table `dst` gives.
pub open spec fn blit_result(
    src: Map<u32, Tex>,
    dst: Map<u32, Tex>,
    src_attachment: u32,
    dst_attachment: u32,
) -> Result<(), FboError> {
    if mask_of(src_attachment) is None {
        Err(FboError::InvalidSrcAttachment(src_attachment))
    } else if mask_of(dst_attachment) is None {
        Err(FboError::InvalidDstAttachment(dst_attachment))
    } else if mask_of(src_attachment) != mask_of(dst_attachment) {
        Err(FboError::KindMismatch(src_attachment, dst_attachment))
    } else if !src.contains_key(src_attachment) {
        Err(FboError::MissingOnSrc(src_attachment))
    } else if !dst.contains_key(dst_attachment) {
        Err(FboError::MissingOnDst(dst_attachment))
    } else {
        Ok(())
    }
}

/// The buffer bit of a slot, as `mask_of` gives it.
pub fn attachment_mask(attachment: u32) -> (r: Option<u32>)
    ensures
        r == mask_of(attachment),
{
    if COLOR_ATTACHMENT0 <= attachment && attachment <= COLOR_ATTACHMENT31 {
        Some(COLOR_BUFFER_BIT)
    } else if attachment == DEPTH_ATTACHMENT {
        Some(DEPTH_BUFFER_BIT)
    } else {
        None
    }
}

#[derive(Debug)]
pub struct Fbo {
    pub id: u32,
    pub attachments: HashMap<u32, Tex>,
}

impl Fbo {
    /// Creates a framebuffer and, for each listed (slot, format), a texture
    /// attached at that slot. Where a slot is listed twice the later texture
    /// takes the slot.
    pub fn new(ctx: &mut RenderContext, attachments: &[(u32, TexSpec)]) -> (r: Fbo)
        requires
            old(ctx).has_room(1 + attachments@.len() as int),
        ensures
            r.id == old(ctx).next_handle,
            forall|k: u32|
                #![trigger r.attachments@.contains_key(k)]
                r.attachments@.contains_key(k) <==> last_pos(
                    slots_of(attachments@),
                    k,
                    attachments@.len() as int,
                ) >= 0,
            forall|k: u32|
                #![trigger r.attachments@[k]]
                r.attachments@.contains_key(k) ==> {
                    let j = last_pos(slots_of(attachments@), k, attachments@.len() as int);
                    &&& r.attachments@[k].id == r.id + 1 + j
                    &&& r.attachments@[k].spec@ == attachments@[j].1@
                },
            final(ctx).allocated_from(*old(ctx), 1 + attachments@.len() as int),
            final(ctx).cmds@.len() == old(ctx).cmds@.len() + 1 + 2 * attachments@.len(),
            final(ctx).cmds@[old(ctx).cmds@.len() as int] == (GlCmd::CreateFramebuffer { id: r.id }),
            forall|j: int|
                0 <= j < attachments@.len() ==> #[trigger] attached_at(
                    final(ctx).cmds@,
                    old(ctx).cmds@.len() as int,
                    r.id,
                    attachments@,
                    j,
                ),
    {
        let ghost c0 = *ctx;
        let ghost keys = slots_of(attachments@);
        let id = ctx.fresh_handle();
        ctx.issue(GlCmd::CreateFramebuffer { id });
        let mut map: HashMap<u32, Tex> = HashMap::new();
        let n = attachments.len();
        let mut i: usize = 0;
        while i < n
            invariant
                n == attachments@.len(),
                keys == slots_of(attachments@),
                0 <= i <= n,
                c0.has_room(1 + n),
                id == c0.next_handle,
                ctx.allocated_from(c0, 1 + i),
                ctx.cmds@.len() == c0.cmds@.len() + 1 + 2 * i,
                ctx.cmds@[c0.cmds@.len() as int] == (GlCmd::CreateFramebuffer { id }),
                forall|j: int|
                    0 <= j < i ==> #[trigger] attached_at(
                        ctx.cmds@,
                        c0.cmds@.len() as int,
                        id,
                        attachments@,
                        j,
                    ),
                forall|k: u32|
                    #![trigger map@.contains_key(k)]
                    map@.contains_key(k) <==> last_pos(keys, k, i as int) >= 0,
                forall|k: u32|
                    #![trigger map@[k]]
                    map@.contains_key(k) ==> {
                        let j = last_pos(keys, k, i as int);
                        &&& map@[k].id == id + 1 + j
                        &&& map@[k].spec@ == attachments@[j].1@
                    },
            decreases n - i,
        {
            let ghost before = ctx.cmds@;
            let tex = Tex::new(ctx, &attachments[i].1);
            ctx.issue(GlCmd::FramebufferTexture { fbo: id, attachment: attachments[i].0, tex: tex.id });
            proof {
                assert(keys[i as int] == attachments@[i as int].0);
                assert forall|j: int| 0 <= j < i implies #[trigger] attached_at(
                    ctx.cmds@,
                    c0.cmds@.len() as int,
                    id,
                    attachments@,
                    j,
                ) by {
                    assert(attached_at(before, c0.cmds@.len() as int, id, attachments@, j));
                    assert(before.is_prefix_of(ctx.cmds@));
                }
                assert forall|k: u32| last_pos(keys, k, i as int) >= 0 implies #[trigger] last_pos(keys, k, i as int) < i by {
                    lemma_last_pos_bounds(keys, k, i as int);
                }
            }
            map.insert(attachments[i].0, tex);
            i = i + 1;
        }
        Fbo { id, attachments: map }
    }

    /// The texture at `attachment`.
    pub fn tex_at(&self, attachment: u32) -> (r: Result<&Tex, FboError>)
        ensures
            self.attachments@.contains_key(attachment) ==> r == Ok::<&Tex, FboError>(
                &self.attachments@[attachment],
            ),
            !self.attachments@.contains_key(attachment) ==> r == Err::<&Tex, FboError>(
                FboError::MissingAttachment(attachment),
            ),
    {
        match self.attachments.get(&attachment) {
            Some(t) => Ok(t),
            None => Err(FboError::MissingAttachment(attachment)),
        }
    }

    /// Makes this the framebuffer that draws go to.
    pub fn bind(&self, ctx: &mut RenderContext)
        ensures
            final(ctx).next_handle == old(ctx).next_handle,
            final(ctx).program == old(ctx).program,
            final(ctx).framebuffer == self.id,
            final(ctx).cmds@ == old(ctx).cmds@.push(GlCmd::BindFramebuffer { id: self.id }),
    {
        ctx.framebuffer = self.id;
        ctx.issue(GlCmd::BindFramebuffer { id: self.id });
    }

    /// Selects the slots that fragment outputs are written to.
    pub fn draw_buffers(&self, ctx: &mut RenderContext, attachments: &[u32])
        ensures
            final(ctx).next_handle == old(ctx).next_handle,
            final(ctx).program == old(ctx).program,
            final(ctx).framebuffer == old(ctx).framebuffer,
            final(ctx).cmds@.drop_last() == old(ctx).cmds@,
            final(ctx).cmds@.len() == old(ctx).cmds@.len() + 1,
            sets_draw_buffers(final(ctx).cmds@.last(), self.id, attachments@),
    {
        let v = vstd::slice::slice_to_vec(attachments);
        ctx.issue(GlCmd::DrawBuffers { fbo: self.id, attachments: v });
        proof {
            assert(ctx.cmds@.drop_last() =~= old(ctx).cmds@);
        }
    }

    /// Selects the slot that reads and blits take their pixels from.
    pub fn read_buffers(&self, ctx: &mut RenderContext, attachment: u32)
        ensures
            final(ctx).issued_one(*old(ctx), GlCmd::ReadBuffer { fbo: self.id, attachment }),
    {
        ctx.issue(GlCmd::ReadBuffer { fbo: self.id, attachment });
    }

    /// Copies slot `src_attachment` of this framebuffer into slot
    /// `dst_attachment` of `dst`, scaling from the source texture's size to
    /// the destination texture's. Both slots must be of one kind (colour or
    /// depth) and be present; otherwise nothing is issued and the misuse is
    /// returned.
    pub fn blit(
        &self,
        ctx: &mut RenderContext,
        dst: &Fbo,
        src_attachment: u32,
        dst_attachment: u32,
        filter: u32,
    ) -> (r: Result<(), FboError>)
        ensures
            r == blit_result(self.attachments@, dst.attachments@, src_attachment, dst_attachment),
            r is Err ==> *final(ctx) == *old(ctx),
            r is Ok ==> {
                let s = self.attachments@[src_attachment];
                let d = dst.attachments@[dst_attachment];
                let blit = GlCmd::Blit {
                    src: self.id,
                    dst: dst.id,
                    src_width: s.spec.width,
                    src_height: s.spec.height,
                    dst_width: d.spec.width,
                    dst_height: d.spec.height,
                    mask: mask_of(src_attachment)->Some_0,
                    filter,
                };
                &&& final(ctx).next_handle == old(ctx).next_handle
                &&& final(ctx).program == old(ctx).program
                &&& final(ctx).framebuffer == old(ctx).framebuffer
                &&& if mask_of(src_attachment) == Some(COLOR_BUFFER_BIT) {
                    &&& final(ctx).cmds@.len() == old(ctx).cmds@.len() + 3
                    &&& final(ctx).cmds@.take(old(ctx).cmds@.len() as int) == old(ctx).cmds@
                    &&& final(ctx).cmds@[old(ctx).cmds@.len() as int] == (GlCmd::ReadBuffer {
                        fbo: self.id,
                        attachment: src_attachment,
                    })
                    &&& sets_draw_buffers(
                        final(ctx).cmds@[old(ctx).cmds@.len() + 1int],
                        dst.id,
                        seq![dst_attachment],
                    )
                    &&& final(ctx).cmds@.last() == blit
                } else {
                    final(ctx).cmds@ == old(ctx).cmds@.push(blit)
                }
            },
    {
        let src_mask = match attachment_mask(src_attachment) {
            Some(m) => m,
            None => {
                return Err(FboError::InvalidSrcAttachment(src_attachment));
            },
        };
        let dst_mask = match attachment_mask(dst_attachment) {
            Some(m) => m,
            None => {
                return Err(FboError::InvalidDstAttachment(dst_attachment));
            },
        };
        if src_mask != dst_mask {
            return Err(FboError::KindMismatch(src_attachment, dst_attachment));
        }
        let src_tex = match self.attachments.get(&src_attachment) {
            Some(t) => t,
            None => {
                return Err(FboError::MissingOnSrc(src_attachment));
            },
        };
        let dst_tex = match dst.attachments.get(&dst_attachment) {
            Some(t) => t,
            None => {
                return Err(FboError::MissingOnDst(dst_attachment));
            },
        };
        let ghost c0 = ctx.cmds@;
        if src_mask == COLOR_BUFFER_BIT {
            ctx.issue(GlCmd::ReadBuffer { fbo: self.id, attachment: src_attachment });
            let v: Vec<u32> = vec![dst_attachment];
            assert(v@ =~= seq![dst_attachment]);
            ctx.issue(GlCmd::DrawBuffers { fbo: dst.id, attachments: v });
        }
        ctx.issue(
            GlCmd::Blit {
                src: self.id,
                dst: dst.id,
                src_width: src_tex.spec.width,
                src_height: src_tex.spec.height,
                dst_width: dst_tex.spec.width,
                dst_height: dst_tex.spec.height,
                mask: src_mask,
                filter,
            },
        );
        proof {
            if src_mask == COLOR_BUFFER_BIT {
                assert(ctx.cmds@.take(c0.len() as int) =~= c0);
                assert(ctx.cmds@[c0.len() + 1int] == ctx.cmds@.drop_last().last());
                assert(ctx.cmds@[c0.len() as int] == (GlCmd::ReadBuffer { fbo: self.id, attachment: src_attachment }));
            }
        }
        Ok(())
    }

    /// Gives each listed slot a new texture of its format at size
    /// `new_width` x `new_height`, deleting the texture it held. Slots not
    /// listed keep their textures. If a listed slot is empty, nothing is
    /// issued and the first such slot is returned.
    pub fn resize_attachments(
        &mut self,
        ctx: &mut RenderContext,
        attachments: &[u32],
        new_width: i32,
        new_height: i32,
    ) -> (r: Result<(), FboError>)
        requires
            old(ctx).has_room(attachments@.len() as int),
        ensures
            r is Ok <==> forall|j: int|
                0 <= j < attachments@.len() ==> old(self).attachments@.contains_key(
                    #[trigger] attachments@[j],
                ),
            r is Err ==> {
                &&& *final(self) == *old(self)
                &&& *final(ctx) == *old(ctx)
                &&& exists|j: int|
                    first_missing_at(attachments@, old(self).attachments@, j) && r == Err::<
                        (),
                        FboError,
                    >(FboError::MissingAttachment(attachments@[j]))
            },
            r is Ok ==> forall|j: int|
                0 <= j < attachments@.len() ==> {
                    &&& (#[trigger] final(self).attachments@[attachments@[j]]).spec.width
                        == new_width
                    &&& final(self).attachments@[attachments@[j]].spec.height == new_height
                },
            r is Ok ==> forall|k: u32|
                old(self).attachments@.contains_key(k) && !attachments@.contains(k)
                    ==> #[trigger] final(self).attachments@[k] == old(self).attachments@[k],
            r is Ok ==> {
                &&& final(self).id == old(self).id
                &&& resized_table(
                    old(self).attachments@,
                    final(self).attachments@,
                    attachments@,
                    old(ctx).next_handle,
                    new_width,
                    new_height,
                    attachments@.len() as int,
                )
                &&& final(ctx).allocated_from(*old(ctx), attachments@.len() as int)
                &&& final(ctx).cmds@.len() == old(ctx).cmds@.len() + 3 * attachments@.len()
                &&& forall|j: int|
                    0 <= j < attachments@.len() ==> #[trigger] replaced_at(
                        final(ctx).cmds@,
                        old(ctx).cmds@.len() as int,
                        old(self).id,
                        attachments@,
                        old(self).attachments@,
                        old(ctx).next_handle,
                        new_width,
                        new_height,
                        j,
                    )
            },
    {
        let n = attachments.len();
        let mut i: usize = 0;
        while i < n
            invariant
                n == attachments@.len(),
                0 <= i <= n,
                forall|j: int| 0 <= j < i ==> self.attachments@.contains_key(#[trigger] attachments@[j]),
            decreases n - i,
        {
            if !self.attachments.contains_key(&attachments[i]) {
                proof {
                    assert(first_missing_at(attachments@, self.attachments@, i as int));
                }
                return Err(FboError::MissingAttachment(attachments[i]));
            }
            i = i + 1;
        }
        let ghost table = self.attachments@;
        let ghost c0 = *ctx;
        let ghost keys = attachments@;
        let first = ctx.next_handle;
        let mut i: usize = 0;
        while i < n
            invariant
                n == keys.len(),
                keys == attachments@,
                0 <= i <= n,
                c0.has_room(n as int),
                first == c0.next_handle,
                self.id == old(self).id,
                table == old(self).attachments@,
                forall|j: int| 0 <= j < n ==> table.contains_key(#[trigger] keys[j]),
                resized_table(table, self.attachments@, keys, first, new_width, new_height, i as int),
                ctx.allocated_from(c0, i as int),
                ctx.cmds@.len() == c0.cmds@.len() + 3 * i,
                forall|j: int|
                    0 <= j < i ==> #[trigger] replaced_at(
                        ctx.cmds@,
                        c0.cmds@.len() as int,
                        self.id,
                        keys,
                        table,
                        first,
                        new_width,
                        new_height,
                        j,
                    ),
            decreases n - i,
        {
            let k = attachments[i];
            let ghost before = ctx.cmds@;
            let ghost prev = self.attachments@;
            proof {
                lemma_last_pos_bounds(keys, k, i as int);
                assert(table.contains_key(k));
            }
            match self.attachments.get(&k) {
                Some(cur) => {
                    let old_id = cur.id;
                    let new_tex = cur.resize(ctx, new_width, new_height);
                    ctx.issue(GlCmd::DeleteTexture { id: old_id });
                    ctx.issue(GlCmd::FramebufferTexture { fbo: self.id, attachment: k, tex: new_tex.id });
                    self.attachments.insert(k, new_tex);
                },
                None => {},
            }
            proof {
                assert forall|j: int| 0 <= j < i implies #[trigger] replaced_at(
                    ctx.cmds@,
                    c0.cmds@.len() as int,
                    self.id,
                    keys,
                    table,
                    first,
                    new_width,
                    new_height,
                    j,
                ) by {
                    assert(replaced_at(before, c0.cmds@.len() as int, self.id, keys, table, first, new_width, new_height, j));
                    assert(before.is_prefix_of(ctx.cmds@));
                }
                assert(self.attachments@ == prev.insert(k, self.attachments@[k]));
                assert(self.attachments@[k].id == first + i);
                assert(self.attachments@[k].spec@ == resized(prev[k].spec@, new_width, new_height));
                assert forall|kk: u32| #![trigger self.attachments@[kk]] table.contains_key(kk) implies {
                    if last_pos(keys, kk, i + 1) < 0 {
                        self.attachments@[kk] == table[kk]
                    } else {
                        &&& self.attachments@[kk].id == first + last_pos(keys, kk, i + 1)
                        &&& self.attachments@[kk].spec@ == resized(table[kk].spec@, new_width, new_height)
                    }
                } by {
                    if kk != k {
                        assert(self.attachments@[kk] == prev[kk]);
                    } else {
                        assert(last_pos(keys, kk, i + 1) == i);
                    }
                }
                assert(self.attachments@.dom() =~= table.dom());
                assert forall|kk: u32| last_pos(keys, kk, i as int) >= 0 implies #[trigger] last_pos(keys, kk, i as int) < i by {
                    lemma_last_pos_bounds(keys, kk, i as int);
                }
            }
            i = i + 1;
        }
        proof {
            assert forall|j: int| 0 <= j < n implies {
                &&& (#[trigger] self.attachments@[keys[j]]).spec.width == new_width
                &&& self.attachments@[keys[j]].spec.height == new_height
            } by {
                lemma_last_pos_found(keys, keys[j], n as int, j);
            }
            assert forall|k: u32| table.contains_key(k) && !keys.contains(k)
                implies #[trigger] self.attachments@[k] == table[k] by {
                assert(keys.take(n as int) =~= keys);
                lemma_last_pos_absent(keys, k, n as int);
            }
        }
        Ok(())
    }
}

/// `f` is the window's default framebuffer at size `width` x `height`:
/// handle 0, and in every colour slot a stand-in texture of handle 0 that
/// records only the size.
pub open spec fn is_window_fbo(f: Fbo, width: i32, height: i32) -> bool {
    &&& f.id == 0
    &&& forall|k: u32|
        #[trigger] f.attachments@.contains_key(k) <==> COLOR_ATTACHMENT0 <= k <= COLOR_ATTACHMENT31
    &&& forall|k: u32|
        #![trigger f.attachments@[k]]
        f.attachments@.contains_key(k) ==> {
            &&& f.attachments@[k].id == 0
            &&& f.attachments@[k].spec@ == resized(
                crate::glu::preset(0, 0, 0, 0, 0),
                width,
                height,
            )
        }
}

/// Builds the window's default framebuffer at size `width` x `height`.
pub fn window_fbo(width: i32, height: i32) -> (r: Fbo)
    ensures
        is_window_fbo(r, width, height),
{
    let mut map: HashMap<u32, Tex> = HashMap::new();
    let mut k: u32 = COLOR_ATTACHMENT0;
    while k <= COLOR_ATTACHMENT31
        invariant
            COLOR_ATTACHMENT0 <= k <= COLOR_ATTACHMENT31 + 1,
            forall|a: u32|
                #[trigger] map@.contains_key(a) <==> COLOR_ATTACHMENT0 <= a < k,
            forall|a: u32|
                #![trigger map@[a]]
                map@.contains_key(a) ==> {
                    &&& map@[a].id == 0
                    &&& map@[a].spec@ == resized(crate::glu::preset(0, 0, 0, 0, 0), width, height)
                },
        decreases COLOR_ATTACHMENT31 + 1 - k,
    {
        let spec = TexSpec { width, height, ..TexSpec::invalid() };
        map.insert(k, Tex { id: 0, spec });
        k = k + 1;
    }
    Fbo { id: 0, attachments: map }
}

/// Something that draws to a window whose default framebuffer has to be
/// described like any other.
pub trait FramebufferAttached {
    /// The default framebuffer at the window's size `width` x `height`.
    fn fbo0(&mut self, width: i32, height: i32) -> (r: &Fbo)
        ensures
            is_window_fbo(*r, width, height),
    ;
}

/// The description of the window's default framebuffer, kept until the
/// window's size changes and then rebuilt when next asked for.
pub struct DefaultFbo {
    last_width: i32,
    last_height: i32,
    fbo: Option<Fbo>,
}

impl DefaultFbo {
    #[verifier::type_invariant]
    spec fn cached_matches(&self) -> bool {
        self.fbo is Some ==> is_window_fbo(self.fbo->Some_0, self.last_width, self.last_height)
    }

    pub closed spec fn cached(&self) -> Option<Fbo> {
        self.fbo
    }

    pub closed spec fn last_size(&self) -> (i32, i32) {
        (self.last_width, self.last_height)
    }

    /// An empty cache.
    pub fn new() -> (r: DefaultFbo)
        ensures
            r.cached() is None,
    {
        DefaultFbo { last_width: 0, last_height: 0, fbo: None }
    }

    /// Forgets the description if the window's size is no longer
    /// `width` x `height`, and records that size.
    pub fn invalidate_on_resize(&mut self, width: i32, height: i32)
        ensures
            final(self).last_size() == (width, height),
            old(self).last_size() == (width, height) ==> final(self).cached() == old(self).cached(),
            old(self).last_size() != (width, height) ==> final(self).cached() is None,
    {
        proof {
            use_type_invariant(&*self);
        }
        if self.last_width != width || self.last_height != height {
            *self = DefaultFbo { last_width: width, last_height: height, fbo: None };
        }
    }
}

impl FramebufferAttached for DefaultFbo {
    fn fbo0(&mut self, width: i32, height: i32) -> (r: &Fbo) {
        self.invalidate_on_resize(width, height);
        proof {
            use_type_invariant(&*self);
        }
        if self.fbo.is_none() {
            *self = DefaultFbo { last_width: width, last_height: height, fbo: Some(window_fbo(width, height)) };
        }
        proof {
            use_type_invariant(&*self);
        }
        self.fbo.as_ref().unwrap()
    }
}

} // verus!
