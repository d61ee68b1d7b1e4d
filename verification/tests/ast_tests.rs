use nemet::ast::{
    Assign, AssignOp, Expr, FunctionDecl, Program, Stmt, TypeName, VariableDecl,
};

#[test]
fn program_new_is_empty() {
    let p = Program::new("file.nmt".to_string());
    assert_eq!(p.file_path, "file.nmt".to_string());
    assert!(p.leading_directive.is_empty());
    assert!(p.body.is_empty());
}

#[test]
fn function_decl_new_has_no_args_or_body() {
    let f = FunctionDecl::new(b"main".to_vec(), TypeName { name: b"u32".to_vec() });
    assert_eq!(f.ident, b"main".to_vec());
    assert_eq!(f.return_type, TypeName { name: b"u32".to_vec() });
    assert!(f.args.is_empty());
    assert!(f.body.is_empty());
}

#[test]
fn variable_decl_new_keeps_fields() {
    let v = VariableDecl::new(
        true,
        false,
        b"x".to_vec(),
        Some(TypeName { name: b"u8".to_vec() }),
        Some(Expr::Int(3)),
    );
    assert!(v.is_const);
    assert!(!v.is_static);
    assert_eq!(v.ident, b"x".to_vec());
    assert_eq!(v.kind, Some(TypeName { name: b"u8".to_vec() }));
    assert_eq!(v.init_value, Some(Expr::Int(3)));
}

#[test]
fn assign_new_keeps_fields() {
    let a = Assign::new(b"x".to_vec(), AssignOp::AddEq, Expr::Int(1));
    assert_eq!(a.lhs, b"x".to_vec());
    assert_eq!(a.op, AssignOp::AddEq);
    assert_eq!(a.rhs, Expr::Int(1));
    let s = Stmt::Assign(a);
    assert!(matches!(s, Stmt::Assign(_)));
}
