use tian::ast::{BinOp, Expr, FieldDef, StructDef, Ty};
use tian::native::{copy_expr, rewrite_ret, sel_unify_ty, struct_field};

fn var(n: &str) -> Box<Expr> {
    Box::new(Expr::Var(n.to_string()))
}

#[test]
fn ret_is_renamed_inside_post_expressions() {
    let e = Expr::Bin { op: BinOp::Gt, lhs: var("ret"), rhs: Box::new(Expr::Int(0)) };
    let r = rewrite_ret(&e);
    assert_eq!(format!("{:?}", r), format!("{:?}", Expr::Bin { op: BinOp::Gt, lhs: var("#ret"), rhs: Box::new(Expr::Int(0)) }));
    let call = Expr::Call { name: "f".to_string(), args: vec![Expr::Var("ret".to_string()), Expr::Var("x".to_string())] };
    let r2 = rewrite_ret(&call);
    assert_eq!(
        format!("{:?}", r2),
        format!("{:?}", Expr::Call { name: "f".to_string(), args: vec![Expr::Var("#ret".to_string()), Expr::Var("x".to_string())] })
    );
    // 字段读取不穿透
    let f = Expr::Field(var("ret"), "x".to_string());
    assert_eq!(format!("{:?}", rewrite_ret(&f)), format!("{:?}", f));
}

#[test]
fn deep_copy_is_equal() {
    let e = Expr::Sel { cond: Box::new(Expr::Bool(true)), a: var("a"), b: Box::new(Expr::Float("1.5".to_string())) };
    assert_eq!(format!("{:?}", copy_expr(&e)), format!("{:?}", e));
}

#[test]
fn sel_branch_types_unify() {
    assert_eq!(sel_unify_ty(Ty::I32, Ty::I64), Ty::I64);
    assert_eq!(sel_unify_ty(Ty::I64, Ty::F64), Ty::F64);
    assert_eq!(sel_unify_ty(Ty::Str, Ty::Str), Ty::Str);
}

#[test]
fn struct_field_lookup() {
    let sd = StructDef {
        name: "点".to_string(),
        fields: vec![
            FieldDef { name: "x".to_string(), ty: Ty::I64, line: 1 },
            FieldDef { name: "名".to_string(), ty: Ty::Str, line: 1 },
        ],
        line: 1,
        imported: false,
    };
    let ss = vec![sd];
    let (d, k, t) = struct_field(Ty::Struct(0), "名", &ss).unwrap();
    assert_eq!((d.name.as_str(), k, t), ("点", 1, Ty::Str));
    assert!(struct_field(Ty::Struct(0), "y", &ss).is_none());
    assert!(struct_field(Ty::Struct(3), "x", &ss).is_none());
    assert!(struct_field(Ty::I64, "x", &ss).is_none());
}
