use nemet::ast::{AssignOp, Op, Type};

#[test]
fn op_get_maps_every_spelling() {
    assert_eq!(Op::get("+".to_string()), Op::Add);
    assert_eq!(Op::get("-".to_string()), Op::Sub);
    assert_eq!(Op::get("*".to_string()), Op::Multi);
    assert_eq!(Op::get("/".to_string()), Op::Divide);
    assert_eq!(Op::get("%".to_string()), Op::Mod);
    assert_eq!(Op::get("&".to_string()), Op::And);
    assert_eq!(Op::get("|".to_string()), Op::Or);
    assert_eq!(Op::get("^".to_string()), Op::Xor);
    assert_eq!(Op::get("<<".to_string()), Op::Lsh);
    assert_eq!(Op::get(">>".to_string()), Op::Rsh);
}

#[test]
fn assign_op_get_maps_every_spelling() {
    assert_eq!(AssignOp::get("=".to_string()), AssignOp::Eq);
    assert_eq!(AssignOp::get("+=".to_string()), AssignOp::AddEq);
    assert_eq!(AssignOp::get("-=".to_string()), AssignOp::SubEq);
    assert_eq!(AssignOp::get("*=".to_string()), AssignOp::MultiEq);
    assert_eq!(AssignOp::get("/=".to_string()), AssignOp::DivideEq);
    assert_eq!(AssignOp::get("%=".to_string()), AssignOp::ModEq);
    assert_eq!(AssignOp::get("&=".to_string()), AssignOp::AndEq);
    assert_eq!(AssignOp::get("|=".to_string()), AssignOp::OrEq);
    assert_eq!(AssignOp::get("^=".to_string()), AssignOp::XorEq);
}

#[test]
fn type_get_resolves_builtins() {
    assert_eq!(Type::get("@i".to_string()), Type::I);
    assert_eq!(Type::get("@f".to_string()), Type::F);
    assert_eq!(Type::get("@bool".to_string()), Type::Bool);
}

#[test]
fn type_get_strips_at_marks_from_names() {
    assert_eq!(Type::get("u32".to_string()), Type::Ident("u32".to_string()));
    assert_eq!(Type::get("@u32".to_string()), Type::Ident("u32".to_string()));
    assert_eq!(Type::get("a@b@c".to_string()), Type::Ident("abc".to_string()));
    assert_eq!(Type::get("".to_string()), Type::Ident("".to_string()));
}
