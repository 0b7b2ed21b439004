use hana::context::{GlCmd, RenderContext};
use hana::shader::{Shader, UniformError};

fn program(ctx: &mut RenderContext) -> Shader {
    let id = Shader::create_program(ctx);
    Shader::linked(id, vec![("u_proj".to_string(), 3), ("tint".to_string(), 7), ("f_pos".to_string(), 0)])
}

#[test]
fn uniform_set_on_bound_program_issues_once() {
    let mut ctx = RenderContext::new();
    let s = program(&mut ctx);
    assert_eq!(ctx.cmds, vec![GlCmd::CreateProgram { id: 1 }]);
    s.bind(&mut ctx);
    assert_eq!(ctx.program, Some(s.id));
    assert!(s.uniform_1i(&mut ctx, "tint", 5).is_ok());
    assert!(s.uniform_1i(&mut ctx, "f_pos", 2).is_ok());
    assert_eq!(ctx.cmds, vec![
        GlCmd::CreateProgram { id: 1 },
        GlCmd::UseProgram { id: 1 },
        GlCmd::Uniform1i { location: 7, value: 5 },
        GlCmd::Uniform1i { location: 0, value: 2 },
    ]);
}

#[test]
fn unknown_uniform_always_fails() {
    let mut ctx = RenderContext::new();
    let s = program(&mut ctx);
    s.bind(&mut ctx);
    let n = ctx.cmds.len();
    match s.uniform_1i(&mut ctx, "u_missing", 1) {
        Err(UniformError::Unknown(name)) => assert_eq!(name, "u_missing"),
        other => panic!("unexpected {:?}", other),
    }
    assert!(matches!(s.uniform_location(&ctx, "TINT"), Err(UniformError::Unknown(_))));
    assert_eq!(ctx.cmds.len(), n);
}

#[test]
fn uniform_on_unbound_program_fails() {
    let mut ctx = RenderContext::new();
    let a = program(&mut ctx);
    let b = program(&mut ctx);
    b.bind(&mut ctx);
    assert!(matches!(a.uniform_1i(&mut ctx, "tint", 1), Err(UniformError::NotBound)));
    assert!(matches!(a.uniform_location(&ctx, "tint"), Err(UniformError::NotBound)));
    assert_eq!(b.uniform_location(&ctx, "u_proj").unwrap(), 3);
}

#[test]
fn find_uniform_takes_first_entry() {
    let s = Shader::linked(4, vec![("a".to_string(), 1), ("a".to_string(), 2)]);
    assert_eq!(s.find_uniform("a"), Some(1));
    assert_eq!(s.find_uniform("b"), None);
    assert_eq!(s.find_uniform(""), None);
}
