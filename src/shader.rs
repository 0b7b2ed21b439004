//! Shader programs and their uniform tables. The table is read once, when
//! the program is linked; every later uniform set goes through it and
//! through the render context's bound program.

use vstd::prelude::*;
use vstd::string::StringExecFns;
use crate::context::{GlCmd, RenderContext};

verus! {

/// Why a uniform could not be set.
#[derive(Debug)]
pub enum UniformError {
    /// The program is not the one bound in the render context.
    NotBound,
    /// The program has no active uniform of this name.
    Unknown(String),
}

/// The location that `table` gives `name`: the first entry of that name.
pub open spec fn lookup(table: Seq<(String, i32)>, name: Seq<char>) -> Option<i32>
    decreases table.len(),
{
    if table.len() == 0 {
        None
    } else if table[0].0@ == name {
        Some(table[0].1)
    } else {
        lookup(table.drop_first(), name)
    }
}

/// What setting uniform `name` of program `id` through `ctx` gives.
pub open spec fn uniform_result(
    ctx: RenderContext,
    id: u32,
    table: Seq<(String, i32)>,
    name: Seq<char>,
) -> Result<i32, ()> {
    if ctx.program != Some(id) {
        Err(())
    } else if lookup(table, name) is None {
        Err(())
    } else {
        Ok(lookup(table, name)->Some_0)
    }
}

/// A linked program: its handle and its active uniforms' locations by name.
pub struct Shader {
    pub id: u32,
    pub uniforms: Vec<(String, i32)>,
}

impl Shader {
    /// Takes a handle for a new program and issues its creation. The backend
    /// compiles, attaches and links the stages under that handle and reads
    /// back the active uniforms, which `linked` then records.
    pub fn create_program(ctx: &mut RenderContext) -> (r: u32)
        requires
            old(ctx).has_room(1),
        ensures
            r == old(ctx).next_handle,
            final(ctx).next_handle == old(ctx).next_handle + 1,
            final(ctx).program == old(ctx).program,
            final(ctx).framebuffer == old(ctx).framebuffer,
            final(ctx).cmds@ == old(ctx).cmds@.push(GlCmd::CreateProgram { id: r }),
    {
        let id = ctx.fresh_handle();
        ctx.issue(GlCmd::CreateProgram { id });
        id
    }

    /// The program `id`, linked, with its active uniforms as (name, location).
    pub fn linked(id: u32, uniforms: Vec<(String, i32)>) -> (r: Shader)
        ensures
            r.id == id,
            r.uniforms@ == uniforms@,
    {
        Shader { id, uniforms }
    }

    /// The location of uniform `name`, looked up in the table.
    pub fn find_uniform(&self, name: &str) -> (r: Option<i32>)
        ensures
            r == lookup(self.uniforms@, name@),
    {
        let key = String::from_str(name);
        let n = self.uniforms.len();
        let mut i: usize = 0;
        assert(self.uniforms@.subrange(0, n as int) =~= self.uniforms@);
        while i < n
            invariant
                n == self.uniforms@.len(),
                0 <= i <= n,
                key@ == name@,
                lookup(self.uniforms@, name@) == lookup(self.uniforms@.subrange(i as int, n as int), name@),
            decreases n - i,
        {
            let ghost rest = self.uniforms@.subrange(i as int, n as int);
            assert(rest.drop_first() =~= self.uniforms@.subrange(i + 1, n as int));
            if self.uniforms[i].0 == key {
                return Some(self.uniforms[i].1);
            }
            i = i + 1;
        }
        None
    }

    /// The location to set uniform `name` at: the program must be the bound
    /// one and must have an active uniform of that name.
    pub fn uniform_location(&self, ctx: &RenderContext, name: &str) -> (r: Result<i32, UniformError>)
        ensures
            match uniform_result(*ctx, self.id, self.uniforms@, name@) {
                Ok(loc) => r matches Ok(l) && l == loc,
                Err(_) => r is Err,
            },
            ctx.program != Some(self.id) ==> r matches Err(UniformError::NotBound),
            ctx.program == Some(self.id) && r is Err ==> (r matches Err(UniformError::Unknown(n)) && n@ == name@),
    {
        if ctx.program != Some(self.id) {
            return Err(UniformError::NotBound);
        }
        match self.find_uniform(name) {
            Some(loc) => Ok(loc),
            None => Err(UniformError::Unknown(String::from_str(name))),
        }
    }

    /// Sets integer uniform `name` to `val`: exactly one command on success,
    /// none on failure.
    pub fn uniform_1i(&self, ctx: &mut RenderContext, name: &str, val: i32) -> (r: Result<(), UniformError>)
        ensures
            r is Ok <==> uniform_result(*old(ctx), self.id, self.uniforms@, name@) is Ok,
            r is Err ==> *final(ctx) == *old(ctx),
            r is Ok ==> final(ctx).issued_one(
                *old(ctx),
                GlCmd::Uniform1i {
                    location: uniform_result(*old(ctx), self.id, self.uniforms@, name@)->Ok_0,
                    value: val,
                },
            ),
            old(ctx).program != Some(self.id) ==> r matches Err(UniformError::NotBound),
            old(ctx).program == Some(self.id) && r is Err ==> (r matches Err(UniformError::Unknown(n)) && n@ == name@),
    {
        let loc = self.uniform_location(ctx, name)?;
        ctx.issue(GlCmd::Uniform1i { location: loc, value: val });
        Ok(())
    }

    /// Makes this the program that draws use and uniforms are set on.
    pub fn bind(&self, ctx: &mut RenderContext)
        ensures
            final(ctx).next_handle == old(ctx).next_handle,
            final(ctx).program == Some(self.id),
            final(ctx).framebuffer == old(ctx).framebuffer,
            final(ctx).cmds@ == old(ctx).cmds@.push(GlCmd::UseProgram { id: self.id }),
    {
        ctx.program = Some(self.id);
        ctx.issue(GlCmd::UseProgram { id: self.id });
    }
}

} // verus!
